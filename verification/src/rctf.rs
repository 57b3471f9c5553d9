//! The scoring-platform synchronization model.
//!
//! Read-only consumers of the challenge model: the platform-side challenge
//! id, the human-readable connection info spliced into descriptions, and
//! the exact payloads uploaded.  The HTTP calls themselves live outside
//! the library.

use vstd::prelude::*;

use crate::challenge::{dash_for_slash, Challenge, Expose, ExposeModel};
use crate::json::{jmodel_seq, Json, JsonModel};
use crate::text::{dec_digits, push_chars, push_dec, string_from_chars};
use crate::seq_view;
use base64::Engine;
use vstd::string::StringExecFns;

verus! {

/// Scoring-platform configuration.
#[derive(Debug, PartialEq, Eq)]
pub struct Config {
    /// Base URL of the platform's API.
    pub url: String,
}

/// Model of `Config`.
#[verifier::ext_equal]
pub struct RctfConfigModel {
    pub url: Seq<char>,
}

impl View for Config {
    type V = RctfConfigModel;

    open spec fn view(&self) -> RctfConfigModel {
        RctfConfigModel { url: self.url@ }
    }
}

/// One attachment file to upload: a name and its raw bytes.
#[derive(Debug, PartialEq, Eq)]
pub struct RctfFile {
    pub name: String,
    pub data: Vec<u8>,
}

/// Model of `RctfFile`.
#[verifier::ext_equal]
pub struct RctfFileModel {
    pub name: Seq<char>,
    pub data: Seq<u8>,
}

impl View for RctfFile {
    type V = RctfFileModel;

    open spec fn view(&self) -> RctfFileModel {
        RctfFileModel { name: self.name@, data: self.data@ }
    }
}

/// One uploaded attachment as the platform reports it back.
#[derive(Debug, PartialEq, Eq)]
pub struct RctfUploadedFile {
    pub name: String,
    pub url: String,
}

/// Model of `RctfUploadedFile`.
#[verifier::ext_equal]
pub struct RctfUploadedFileModel {
    pub name: Seq<char>,
    pub url: Seq<char>,
}

impl View for RctfUploadedFile {
    type V = RctfUploadedFileModel;

    open spec fn view(&self) -> RctfUploadedFileModel {
        RctfUploadedFileModel { name: self.name@, url: self.url@ }
    }
}

/// The envelope the platform wraps an upload response in.
#[derive(Debug, PartialEq, Eq)]
pub struct ScrewRustSometimes {
    pub data: Vec<RctfUploadedFile>,
}

/// The platform-side id of a challenge: `bcds-` and the service id with
/// path separators replaced by hyphens.
pub open spec fn rctf_id_model(id: Seq<char>) -> Seq<char> {
    "bcds-"@ + dash_for_slash(id)
}

/// Builds the platform-side id of a challenge.
pub fn rctf_chall_id(id: &str) -> (r: String)
    ensures
        r@ == rctf_id_model(id@),
{
    let mut out: Vec<char> = Vec::new();
    push_chars(&mut out, "bcds-");
    let idc = crate::text::chars_of(id);
    let mut i: usize = 0;
    while i < idc.len()
        invariant
            i <= idc.len(),
            idc@ == id@,
            out@ == "bcds-"@ + dash_for_slash(id@).take(i as int),
        decreases idc.len() - i,
    {
        let c = idc[i];
        let mapped: char = if c == '/' {
            '-'
        } else {
            c
        };
        proof {
            assert(dash_for_slash(id@)[i as int] == mapped);
            assert(("bcds-"@ + dash_for_slash(id@).take(i as int)).push(mapped) =~= "bcds-"@
                + dash_for_slash(id@).take(i as int + 1));
        }
        out.push(mapped);
        i += 1;
    }
    proof {
        assert(dash_for_slash(id@).take(id@.len() as int) =~= dash_for_slash(id@));
    }
    string_from_chars(&out)
}

/// Index of the first path separator of `s`, or its length if none.
pub open spec fn slash_index(s: Seq<char>) -> int
    decreases s,
{
    if s.len() == 0 {
        0
    } else if s[0] == '/' {
        0
    } else {
        1 + slash_index(s.drop_first())
    }
}

proof fn lemma_slash_index_converse(s: Seq<char>, j: int)
    requires
        0 <= j <= s.len(),
        j < s.len() ==> s[j] == '/',
        forall|i: int| 0 <= i < j ==> s[i] != '/',
        j == s.len() ==> forall|i: int| 0 <= i < s.len() ==> s[i] != '/',
    ensures
        slash_index(s) == j,
    decreases s,
{
    if s.len() > 0 && j > 0 {
        let d = s.drop_first();
        assert forall|i: int| 0 <= i < j - 1 implies d[i] != '/' by {
            assert(s[i + 1] != '/');
        }
        if j == s.len() {
            assert forall|i: int| 0 <= i < d.len() implies d[i] != '/' by {
                assert(s[i + 1] != '/');
            }
        }
        lemma_slash_index_converse(d, j - 1);
    }
}

/// The category of a service id: everything before the first separator,
/// or the whole id where it has none.
pub fn category_of(id: &str) -> (r: String)
    ensures
        r@ == id@.take(slash_index(id@)),
{
    let idc = crate::text::chars_of(id);
    let mut out: Vec<char> = Vec::new();
    let mut i: usize = 0;
    while i < idc.len()
        invariant
            i <= idc.len(),
            idc@ == id@,
            out@ == id@.take(i as int),
            forall|j: int| 0 <= j < i ==> id@[j] != '/',
        decreases idc.len() - i,
    {
        let c = idc[i];
        if c == '/' {
            proof {
                lemma_slash_index_converse(id@, i as int);
            }
            return string_from_chars(&out);
        }
        proof {
            assert(id@.take(i as int).push(c) =~= id@.take(i as int + 1));
        }
        out.push(c);
        i += 1;
    }
    proof {
        lemma_slash_index_converse(id@, id@.len() as int);
        assert(id@.take(id@.len() as int) =~= id@);
    }
    string_from_chars(&out)
}

/// The human-readable connection info of one exposure: the netcat line
/// for TCP, the public link for HTTP.
pub open spec fn conn_info_model(e: ExposeModel, hostname: Seq<char>) -> Seq<char> {
    match e {
        ExposeModel::Tcp { target, tcp } => "`nc chal."@ + hostname + " "@ + dec_digits(
            tcp as nat,
        ) + "`"@,
        ExposeModel::Http { target, http } => "[http://"@ + http + "."@ + hostname + "](http://"@
            + http + "."@ + hostname + ")"@,
    }
}

/// Renders the connection info of one exposure.
pub fn connection_info(e: &Expose, hostname: &str) -> (r: String)
    ensures
        r@ == conn_info_model(e@, hostname@),
{
    let mut out: Vec<char> = Vec::new();
    match e {
        Expose::Tcp { target, tcp } => {
            push_chars(&mut out, "`nc chal.");
            push_chars(&mut out, hostname);
            push_chars(&mut out, " ");
            push_dec(&mut out, *tcp as u64);
            push_chars(&mut out, "`");
            proof {
                assert(out@ =~= conn_info_model(e@, hostname@));
            }
        },
        Expose::Http { target, http } => {
            push_chars(&mut out, "[http://");
            push_chars(&mut out, http.as_str());
            push_chars(&mut out, ".");
            push_chars(&mut out, hostname);
            push_chars(&mut out, "](http://");
            push_chars(&mut out, http.as_str());
            push_chars(&mut out, ".");
            push_chars(&mut out, hostname);
            push_chars(&mut out, ")");
            proof {
                assert(out@ =~= conn_info_model(e@, hostname@));
            }
        },
    }
    string_from_chars(&out)
}

/// `s` with every non-overlapping occurrence of `pat` replaced by `to`,
/// scanning left to right; `s` unchanged when `pat` is empty.
pub open spec fn replace_model(s: Seq<char>, pat: Seq<char>, to: Seq<char>) -> Seq<char>
    decreases s.len(),
{
    if pat.len() == 0 || s.len() == 0 {
        s
    } else if s.len() >= pat.len() && s.take(pat.len() as int) == pat {
        to + replace_model(s.skip(pat.len() as int), pat, to)
    } else {
        seq![s[0]] + replace_model(s.drop_first(), pat, to)
    }
}

/// Whether `pat` occurs in `s` at position `i`.
fn match_at(s: &Vec<char>, i: usize, pat: &Vec<char>) -> (r: bool)
    requires
        i <= s@.len(),
    ensures
        r == (i + pat@.len() <= s@.len() && s@.subrange(i as int, i + pat@.len()) == pat@),
{
    if pat.len() > s.len() - i {
        proof {
            assert(i + pat@.len() > s@.len());
        }
        return false;
    }
    let mut k: usize = 0;
    while k < pat.len()
        invariant
            k <= pat.len(),
            i + pat@.len() <= s@.len(),
            forall|j: int| 0 <= j < k ==> s@[i + j] == pat@[j],
        decreases pat.len() - k,
    {
        proof {
            assert(i + k < s.len());
        }
        if s[i + k] != pat[k] {
            proof {
                assert(s@.subrange(i as int, i + pat@.len())[k as int] == s@[i + k]);
            }
            return false;
        }
        k += 1;
    }
    proof {
        assert(s@.subrange(i as int, i + pat@.len()) =~= pat@);
    }
    true
}

/// Replaces every non-overlapping occurrence of `pat` in `s` by `to`,
/// scanning left to right.
pub fn replace_all(s: &Vec<char>, pat: &Vec<char>, to: &Vec<char>) -> (r: Vec<char>)
    ensures
        r@ == replace_model(s@, pat@, to@),
{
    let mut out: Vec<char> = Vec::new();
    if pat.len() == 0 {
        let mut i: usize = 0;
        while i < s.len()
            invariant
                i <= s.len(),
                out@ == s@.take(i as int),
            decreases s.len() - i,
        {
            proof {
                assert(s@.take(i as int).push(s@[i as int]) =~= s@.take(i as int + 1));
            }
            out.push(s[i]);
            i += 1;
        }
        proof {
            assert(s@.take(s@.len() as int) =~= s@);
        }
        return out;
    }
    proof {
        assert(s@.skip(0) =~= s@);
        assert(Seq::<char>::empty() + replace_model(s@, pat@, to@) =~= replace_model(
            s@,
            pat@,
            to@,
        ));
    }
    let mut i: usize = 0;
    while i < s.len()
        invariant
            i <= s.len(),
            pat@.len() > 0,
            replace_model(s@, pat@, to@) == out@ + replace_model(s@.skip(i as int), pat@, to@),
        decreases s.len() - i,
    {
        let ghost suffix = s@.skip(i as int);
        proof {
            assert(suffix.len() == s@.len() - i);
            assert(suffix.len() > 0);
        }
        if match_at(s, i, pat) {
            proof {
                assert(suffix.take(pat@.len() as int) =~= s@.subrange(i as int, i + pat@.len()));
                assert(suffix.skip(pat@.len() as int) =~= s@.skip(i + pat@.len()));
                assert(replace_model(suffix, pat@, to@) == to@ + replace_model(
                    s@.skip(i + pat@.len()),
                    pat@,
                    to@,
                ));
            }
            let ghost base = out@;
            let mut k: usize = 0;
            while k < to.len()
                invariant
                    k <= to.len(),
                    out@ == base + to@.take(k as int),
                decreases to.len() - k,
            {
                proof {
                    assert((base + to@.take(k as int)).push(to@[k as int]) =~= base + to@.take(
                        k as int + 1,
                    ));
                }
                out.push(to[k]);
                k += 1;
            }
            proof {
                assert(to@.take(to@.len() as int) =~= to@);
                assert((base + to@) + replace_model(s@.skip(i + pat@.len()), pat@, to@) =~= base
                    + (to@ + replace_model(s@.skip(i + pat@.len()), pat@, to@)));
            }
            i += pat.len();
        } else {
            proof {
                assert(suffix[0] == s@[i as int]);
                assert(suffix.drop_first() =~= s@.skip(i as int + 1));
                if suffix.len() >= pat@.len() {
                    assert(suffix.take(pat@.len() as int) =~= s@.subrange(
                        i as int,
                        i + pat@.len(),
                    ));
                }
                assert(replace_model(suffix, pat@, to@) == seq![s@[i as int]] + replace_model(
                    s@.skip(i as int + 1),
                    pat@,
                    to@,
                ));
            }
            out.push(s[i]);
            i += 1;
        }
    }
    proof {
        assert(s@.skip(s@.len() as int) =~= Seq::<char>::empty());
        assert(replace_model(Seq::<char>::empty(), pat@, to@) == Seq::<char>::empty());
        assert(out@ + Seq::<char>::empty() =~= out@);
    }
    out
}


/// The placeholder a description carries for one container's address:
/// `{{<name>.url}}`.
pub open spec fn url_pat(name: Seq<char>) -> Seq<char> {
    "{{"@ + name + ".url}}"@
}

/// The description with every container's placeholder replaced by that
/// container's connection info, in exposure-declaration order.
pub open spec fn rendered_desc(
    desc: Seq<char>,
    entries: Seq<(Seq<char>, ExposeModel)>,
    hostname: Seq<char>,
) -> Seq<char>
    decreases entries.len(),
{
    if entries.len() == 0 {
        desc
    } else {
        rendered_desc(
            replace_model(desc, url_pat(entries[0].0), conn_info_model(entries[0].1, hostname)),
            entries.drop_first(),
            hostname,
        )
    }
}

/// Splices every exposure's connection info into the description text.
pub fn render_description(desc: &String, expose: &Vec<(String, Expose)>, hostname: &str) -> (r:
    String)
    ensures
        r@ == rendered_desc(desc@, crate::entries_view(expose@), hostname@),
{
    let ghost ev = crate::entries_view(expose@);
    let mut acc = crate::text::chars_of(desc.as_str());
    proof {
        assert(ev.skip(0) =~= ev);
    }
    let mut i: usize = 0;
    while i < expose.len()
        invariant
            i <= expose.len(),
            ev == crate::entries_view(expose@),
            ev.len() == expose@.len(),
            rendered_desc(acc@, ev.skip(i as int), hostname@) == rendered_desc(
                desc@,
                ev,
                hostname@,
            ),
        decreases expose.len() - i,
    {
        let mut pat: Vec<char> = Vec::new();
        push_chars(&mut pat, "{{");
        push_chars(&mut pat, expose[i].0.as_str());
        push_chars(&mut pat, ".url}}");
        let info = connection_info(&expose[i].1, hostname);
        let to = crate::text::chars_of(info.as_str());
        let next = replace_all(&acc, &pat, &to);
        proof {
            assert(ev[i as int] == (expose@[i as int].0@, expose@[i as int].1@));
            assert(pat@ =~= url_pat(ev[i as int].0));
            assert(to@ == conn_info_model(ev[i as int].1, hostname@));
            assert(ev.skip(i as int)[0] == ev[i as int]);
            assert(ev.skip(i as int).drop_first() =~= ev.skip(i as int + 1));
            assert(rendered_desc(acc@, ev.skip(i as int), hostname@) == rendered_desc(
                next@,
                ev.skip(i as int + 1),
                hostname@,
            ));
        }
        acc = next;
        i += 1;
    }
    proof {
        assert(ev.skip(ev.len() as int) =~= Seq::<(Seq<char>, ExposeModel)>::empty());
    }
    string_from_chars(&acc)
}

/// What base64's padded url-safe encoding of a byte sequence is: a pure
/// function of the bytes, named rather than restated.
pub uninterp spec fn b64_url_of(data: Seq<u8>) -> Seq<char>;

/// Relies on base64's `URL_SAFE` engine: `Engine::encode` computes a
/// function of the input bytes alone, and with padding the output holds
/// exactly four characters for every started group of three input bytes.
#[verifier::external_body]
fn b64_encode(data: &Vec<u8>) -> (r: String)
    requires
        4 * ((data@.len() + 2) / 3) <= usize::MAX,
    ensures
        r@ == b64_url_of(data@),
        r@.len() == 4 * ((data@.len() + 2) / 3),
{
    base64::engine::general_purpose::URL_SAFE.encode(data)
}

/// The attachment bytes as the data URL the platform ingests.
pub fn data_url(data: &Vec<u8>) -> (r: String)
    requires
        4 * ((data@.len() + 2) / 3) <= usize::MAX,
    ensures
        r@ == "data:image/png;base64,"@ + b64_url_of(data@),
{
    let b = b64_encode(data);
    let mut out: Vec<char> = Vec::new();
    push_chars(&mut out, "data:image/png;base64,");
    push_chars(&mut out, b.as_str());
    string_from_chars(&out)
}

/// The upload document entry of one attachment file.
pub open spec fn upload_entry_model(f: RctfFileModel) -> JsonModel {
    JsonModel::Obj(
        seq![
            ("name"@, JsonModel::Str(f.name)),
            ("data"@, JsonModel::Str("data:image/png;base64,"@ + b64_url_of(f.data))),
        ],
    )
}

/// The whole upload request document.
pub open spec fn upload_doc_model(files: Seq<RctfFileModel>) -> JsonModel {
    JsonModel::Obj(
        seq![
            (
                "files"@,
                JsonModel::Arr(Seq::new(files.len(), |i: int| upload_entry_model(files[i]))),
            ),
        ],
    )
}

/// Builds the upload request document for a batch of attachment files.
pub fn upload_payload(files: &Vec<RctfFile>) -> (j: Json)
    requires
        forall|i: int| 0 <= i < files@.len() ==> 4 * ((#[trigger] files@[i]@.data.len() + 2) / 3)
            <= usize::MAX,
    ensures
        j@ == upload_doc_model(seq_view(files@)),
{
    let ghost fm = seq_view(files@);
    let ghost full = Seq::new(fm.len(), |i: int| upload_entry_model(fm[i]));
    let mut items: Vec<Json> = Vec::new();
    proof {
        assert(jmodel_seq(items@) =~= full.take(0));
    }
    let mut i: usize = 0;
    while i < files.len()
        invariant
            i <= files.len(),
            fm == seq_view(files@),
            full == Seq::new(fm.len(), |k: int| upload_entry_model(fm[k])),
            full.len() == files@.len(),
            jmodel_seq(items@) == full.take(i as int),
            forall|k: int| 0 <= k < files@.len() ==> 4 * ((#[trigger] files@[k]@.data.len() + 2)
                / 3) <= usize::MAX,
        decreases files.len() - i,
    {
        proof {
            assert(files@[i as int]@.data.len() == files@[i as int].data@.len());
        }
        let du = data_url(&files[i].data);
        let entry = crate::json::obj2(
            "name",
            Json::Str(files[i].name.clone()),
            "data",
            Json::Str(du),
        );
        proof {
            assert(fm[i as int] == files@[i as int]@);
            crate::json::lemma_jmodel_seq_push(items@, entry);
            assert(entry@ == upload_entry_model(fm[i as int]));
            assert(full.take(i as int).push(entry@) =~= full.take(i as int + 1));
        }
        items.push(entry);
        i += 1;
    }
    proof {
        assert(full.take(full.len() as int) =~= full);
    }
    crate::json::obj1("files", Json::Arr(items))
}

/// The scoring document entry of one uploaded attachment.
pub open spec fn uploaded_model(f: RctfUploadedFileModel) -> JsonModel {
    JsonModel::Obj(seq![("name"@, JsonModel::Str(f.name)), ("url"@, JsonModel::Str(f.url))])
}

/// The fixed scoring bounds every challenge is posted with.
pub open spec fn points_model() -> JsonModel {
    JsonModel::Obj(seq![("min"@, JsonModel::Int(100)), ("max"@, JsonModel::Int(500))])
}

/// The whole challenge-update document sent to the platform.
pub open spec fn update_doc_model(
    c: crate::challenge::ChallengeModel,
    category: Seq<char>,
    description: Seq<char>,
    files: Seq<RctfUploadedFileModel>,
) -> JsonModel {
    JsonModel::Obj(
        seq![
            (
                "data"@,
                JsonModel::Obj(
                    seq![
                        ("author"@, JsonModel::Str(c.author)),
                        ("category"@, JsonModel::Str(category)),
                        ("description"@, JsonModel::Str(description)),
                        ("flag"@, JsonModel::Str(c.flag)),
                        ("name"@, JsonModel::Str(c.name)),
                        ("points"@, points_model()),
                        (
                            "files"@,
                            JsonModel::Arr(
                                Seq::new(files.len(), |i: int| uploaded_model(files[i])),
                            ),
                        ),
                        ("tiebreakEligible"@, JsonModel::Bool(true)),
                    ],
                ),
            ),
        ],
    )
}

/// Builds the challenge-update document: the challenge's text with the
/// rendered description, the fixed scoring bounds, and the uploaded
/// attachments.
pub fn chall_update_doc(
    chall: &Challenge,
    category: &String,
    description: &String,
    files: &Vec<RctfUploadedFile>,
) -> (j: Json)
    ensures
        j@ == update_doc_model(chall@, category@, description@, seq_view(files@)),
{
    let ghost fm = seq_view(files@);
    let ghost farr = Seq::new(fm.len(), |i: int| uploaded_model(fm[i]));
    let mut items: Vec<Json> = Vec::new();
    proof {
        assert(jmodel_seq(items@) =~= farr.take(0));
    }
    let mut i: usize = 0;
    while i < files.len()
        invariant
            i <= files.len(),
            fm == seq_view(files@),
            farr == Seq::new(fm.len(), |k: int| uploaded_model(fm[k])),
            farr.len() == files@.len(),
            jmodel_seq(items@) == farr.take(i as int),
        decreases files.len() - i,
    {
        let entry = crate::json::obj2(
            "name",
            Json::Str(files[i].name.clone()),
            "url",
            Json::Str(files[i].url.clone()),
        );
        proof {
            assert(fm[i as int] == files@[i as int]@);
            crate::json::lemma_jmodel_seq_push(items@, entry);
            assert(entry@ == uploaded_model(fm[i as int]));
            assert(farr.take(i as int).push(entry@) =~= farr.take(i as int + 1));
        }
        items.push(entry);
        i += 1;
    }
    proof {
        assert(farr.take(farr.len() as int) =~= farr);
    }
    let points = crate::json::obj2("min", Json::Int(100), "max", Json::Int(500));
    let mut inner: Vec<(String, Json)> = Vec::new();
    let ghost e0 = crate::json::jmodel_entries(inner@);
    crate::json::push_entry(&mut inner, "author", Json::Str(chall.author.clone()));
    crate::json::push_entry(&mut inner, "category", Json::Str(category.clone()));
    crate::json::push_entry(&mut inner, "description", Json::Str(description.clone()));
    crate::json::push_entry(&mut inner, "flag", Json::Str(chall.flag.clone()));
    crate::json::push_entry(&mut inner, "name", Json::Str(chall.name.clone()));
    crate::json::push_entry(&mut inner, "points", points);
    crate::json::push_entry(&mut inner, "files", Json::Arr(items));
    crate::json::push_entry(&mut inner, "tiebreakEligible", Json::Bool(true));
    proof {
        assert(e0 =~= Seq::<crate::json::ModelEntry>::empty());
        assert(crate::json::jmodel_entries(inner@) =~= seq![
            ("author"@, JsonModel::Str(chall.author@)),
            ("category"@, JsonModel::Str(category@)),
            ("description"@, JsonModel::Str(description@)),
            ("flag"@, JsonModel::Str(chall.flag@)),
            ("name"@, JsonModel::Str(chall.name@)),
            ("points"@, points_model()),
            ("files"@, JsonModel::Arr(farr)),
            ("tiebreakEligible"@, JsonModel::Bool(true)),
        ]);
    }
    crate::json::obj1("data", Json::Obj(inner))
}

/// The URL attachments are uploaded to.
pub fn rctf_upload_url(base: &str) -> (r: String)
    ensures
        r@ == base@ + "/api/v1/admin/upload"@,
{
    let mut out: Vec<char> = Vec::new();
    push_chars(&mut out, base);
    push_chars(&mut out, "/api/v1/admin/upload");
    string_from_chars(&out)
}

/// The URL one challenge is updated at.
pub fn rctf_chall_url(base: &str, id: &str) -> (r: String)
    ensures
        r@ == base@ + "/api/v1/admin/challs/"@ + id@,
{
    let mut out: Vec<char> = Vec::new();
    push_chars(&mut out, base);
    push_chars(&mut out, "/api/v1/admin/challs/");
    push_chars(&mut out, id);
    proof {
        assert(out@ =~= base@ + "/api/v1/admin/challs/"@ + id@);
    }
    string_from_chars(&out)
}

} // verus!
