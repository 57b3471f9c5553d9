//! Rendering a JSON document to its textual form.
//!
//! The exact character sequence of the rendered document is pinned by
//! `spec_render`, so callers can reason about the bytes that reach the
//! proxy's configuration endpoint.

use vstd::prelude::*;

use crate::json::{jmodel, jmodel_entries, jmodel_seq, Json, JsonModel, ModelEntry};
use crate::json::{lemma_jmodel_entries_index, lemma_jmodel_entries_len};
use crate::json::{lemma_jmodel_seq_index, lemma_jmodel_seq_len};
use crate::text::{dec_digits, dig, hexdig, int_digits, push_chars, push_int_digits};
use crate::text::{hex_char, string_from_chars};

verus! {

/// How one character appears inside a JSON string literal.
pub open spec fn esc_char(c: char) -> Seq<char> {
    if c == '"' {
        seq!['\\', '"']
    } else if c == '\\' {
        seq!['\\', '\\']
    } else if (c as u32) < 32 {
        seq!['\\', 'u', '0', '0', hexdig(((c as u32) / 16) as int), hexdig(
            ((c as u32) % 16) as int,
        )]
    } else {
        seq![c]
    }
}

/// The escaped form of the first `j` characters of `s`.
pub open spec fn esc_upto(s: Seq<char>, j: int) -> Seq<char>
    decreases j,
{
    if j <= 0 || j > s.len() {
        Seq::empty()
    } else {
        esc_upto(s, j - 1) + esc_char(s[j - 1])
    }
}

/// The escaped form of a whole string.
pub open spec fn esc_str(s: Seq<char>) -> Seq<char> {
    esc_upto(s, s.len() as int)
}

/// A quoted, escaped JSON string literal.
pub open spec fn quoted(s: Seq<char>) -> Seq<char> {
    seq!['"'] + esc_str(s) + seq!['"']
}

/// The rendered text of a JSON value: no whitespace, object entries in
/// stored order.
pub open spec fn spec_render(m: JsonModel) -> Seq<char>
    decreases m, 0nat,
{
    match m {
        JsonModel::Null => seq!['n', 'u', 'l', 'l'],
        JsonModel::Bool(b) => if b {
            seq!['t', 'r', 'u', 'e']
        } else {
            seq!['f', 'a', 'l', 's', 'e']
        },
        JsonModel::Int(n) => int_digits(n),
        JsonModel::Str(s) => quoted(s),
        JsonModel::Arr(items) => seq!['['] + render_items_upto(items, items.len() as int)
            + seq![']'],
        JsonModel::Obj(entries) => seq!['{'] + render_entries_upto(entries, entries.len() as int)
            + seq!['}'],
    }
}

/// The rendered, comma-separated text of the first `j` array items.
pub open spec fn render_items_upto(s: Seq<JsonModel>, j: int) -> Seq<char>
    decreases s, j,
{
    if j <= 0 || j > s.len() {
        Seq::empty()
    } else {
        let sep: Seq<char> = if j == 1 {
            Seq::empty()
        } else {
            seq![',']
        };
        render_items_upto(s, j - 1) + sep + spec_render(s[j - 1])
    }
}

/// The rendered, comma-separated text of the first `j` object entries.
pub open spec fn render_entries_upto(s: Seq<ModelEntry>, j: int) -> Seq<char>
    decreases s, j,
{
    if j <= 0 || j > s.len() {
        Seq::empty()
    } else {
        let sep: Seq<char> = if j == 1 {
            Seq::empty()
        } else {
            seq![',']
        };
        render_entries_upto(s, j - 1) + sep + quoted(s[j - 1].0) + seq![':'] + spec_render(
            s[j - 1].1,
        )
    }
}

/// Appends the quoted, escaped form of `s` to `out`.
pub fn push_quoted(out: &mut Vec<char>, s: &String)
    ensures
        final(out)@ == old(out)@ + quoted(s@),
{
    out.push('"');
    let sr = s.as_str();
    let n = sr.unicode_len();
    let ghost start = out@;
    let mut i: usize = 0;
    while i < n
        invariant
            i <= n,
            n == sr@.len(),
            sr@ == s@,
            start == old(out)@ + seq!['"'],
            out@ == start + esc_upto(s@, i as int),
        decreases n - i,
    {
        let c = sr.get_char(i);
        proof {
            assert(esc_upto(s@, i as int + 1) == esc_upto(s@, i as int) + esc_char(s@[i as int]));
        }
        if c == '"' {
            out.push('\\');
            out.push('"');
        } else if c == '\\' {
            out.push('\\');
            out.push('\\');
        } else if (c as u32) < 32 {
            out.push('\\');
            out.push('u');
            out.push('0');
            out.push('0');
            out.push(hex_char((c as u32) / 16));
            out.push(hex_char((c as u32) % 16));
        } else {
            out.push(c);
        }
        proof {
            assert(out@ =~= start + esc_upto(s@, i as int + 1));
        }
        i += 1;
    }
    out.push('"');
    proof {
        assert(out@ =~= old(out)@ + quoted(s@));
    }
}

/// Appends the rendered text of `v` to `out`.
pub fn render_into(v: &Json, out: &mut Vec<char>)
    ensures
        final(out)@ == old(out)@ + spec_render(v@),
    decreases *v,
{
    match v {
        Json::Null => {
            push_chars(out, "null");
            proof {
                reveal_strlit("null");
                assert("null"@ =~= seq!['n', 'u', 'l', 'l']);
            }
        },
        Json::Bool(b) => {
            if *b {
                push_chars(out, "true");
                proof {
                    reveal_strlit("true");
                    assert("true"@ =~= seq!['t', 'r', 'u', 'e']);
                }
            } else {
                push_chars(out, "false");
                proof {
                    reveal_strlit("false");
                    assert("false"@ =~= seq!['f', 'a', 'l', 's', 'e']);
                }
            }
        },
        Json::Int(n) => {
            push_int_digits(out, *n);
        },
        Json::Str(s) => {
            push_quoted(out, s);
        },
        Json::Arr(items) => {
            let ghost im = jmodel_seq(items@);
            proof {
                lemma_jmodel_seq_len(items@);
            }
            out.push('[');
            let ghost start = out@;
            let mut i: usize = 0;
            while i < items.len()
                invariant
                    i <= items.len(),
                    *v == Json::Arr(*items),
                    im == jmodel_seq(items@),
                    im.len() == items@.len(),
                    start == old(out)@ + seq!['['],
                    out@ == start + render_items_upto(im, i as int),
                decreases items.len() - i,
            {
                if i > 0 {
                    out.push(',');
                }
                proof {
                    lemma_jmodel_seq_index(items@, i as int);
                    assert(*v == Json::Arr(*items));
                    assert(decreases_to!(*v => v->Arr_0));
                    assert(decreases_to!(*v => *items));
                    assert(decreases_to!(*items => items[i as int]));
                }
                render_into(&items[i], out);
                proof {
                    assert(render_items_upto(im, i as int + 1) == render_items_upto(im, i as int)
                        + (if i == 0 {
                        Seq::<char>::empty()
                    } else {
                        seq![',']
                    }) + spec_render(im[i as int]));
                    assert(out@ =~= start + render_items_upto(im, i as int + 1));
                }
                i += 1;
            }
            out.push(']');
            proof {
                assert(out@ =~= old(out)@ + spec_render(v@));
            }
        },
        Json::Obj(entries) => {
            let ghost em = jmodel_entries(entries@);
            proof {
                lemma_jmodel_entries_len(entries@);
            }
            out.push('{');
            let ghost start = out@;
            let mut i: usize = 0;
            while i < entries.len()
                invariant
                    i <= entries.len(),
                    *v == Json::Obj(*entries),
                    em == jmodel_entries(entries@),
                    em.len() == entries@.len(),
                    start == old(out)@ + seq!['{'],
                    out@ == start + render_entries_upto(em, i as int),
                decreases entries.len() - i,
            {
                if i > 0 {
                    out.push(',');
                }
                push_quoted(out, &entries[i].0);
                out.push(':');
                proof {
                    lemma_jmodel_entries_index(entries@, i as int);
                    assert(*v == Json::Obj(*entries));
                    assert(decreases_to!(*v => v->Obj_0));
                    assert(decreases_to!(*v => *entries));
                    assert(decreases_to!(*entries => entries[i as int]));
                    assert(decreases_to!(entries[i as int] => entries[i as int].1));
                }
                render_into(&entries[i].1, out);
                proof {
                    assert(render_entries_upto(em, i as int + 1) == render_entries_upto(
                        em,
                        i as int,
                    ) + (if i == 0 {
                        Seq::<char>::empty()
                    } else {
                        seq![',']
                    }) + quoted(em[i as int].0) + seq![':'] + spec_render(em[i as int].1));
                    assert(out@ =~= start + render_entries_upto(em, i as int + 1));
                }
                i += 1;
            }
            out.push('}');
            proof {
                assert(out@ =~= old(out)@ + spec_render(v@));
            }
        },
    }
}

/// The rendered text of `v` as a `String`.
pub fn to_json_text(v: &Json) -> (r: String)
    ensures
        r@ == spec_render(v@),
{
    let mut out: Vec<char> = Vec::new();
    render_into(v, &mut out);
    string_from_chars(&out)
}

} // verus!
