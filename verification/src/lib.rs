//! Declarative deployment engine for a catalog of containerized services.
//!
//! The library computes everything a deployment run decides: which remote
//! instances to create or update, the public routing tables derived from
//! exposure declarations, and the reverse-proxy configuration document that
//! is pushed to the ingress instance.  All network and file I/O is left to
//! the surrounding binary.

use vstd::prelude::*;

pub mod challenge;
pub mod compose;
pub mod errors;
pub mod fly;
pub mod json;
pub mod orchestrate;
pub mod rctf;
pub mod reconcile;
pub mod render;
pub mod router;
pub mod status;
pub mod text;

verus! {

/// Everything one deployment run is configured with.
pub struct Config {
    /// Remote fleet configuration.
    pub fly: fly::Config,
    /// Scoring-platform configuration, where one is used.
    pub rctf: Option<rctf::Config>,
    /// Root directory of the challenge catalog.
    pub chall_root: String,
    /// Public hostname all HTTP exposures live under.
    pub hostname: String,
    /// Operator override deep-merged onto the generated proxy document.
    pub caddy: json::Json,
}

/// Model of `Config`.
#[verifier::ext_equal]
pub struct ConfigModel {
    pub fly: fly::ConfigModel,
    pub rctf: Option<rctf::RctfConfigModel>,
    pub chall_root: Seq<char>,
    pub hostname: Seq<char>,
    pub caddy: json::JsonModel,
}

impl View for Config {
    type V = ConfigModel;

    open spec fn view(&self) -> ConfigModel {
        ConfigModel {
            fly: self.fly@,
            rctf: match self.rctf {
                Some(ref c) => Some(c@),
                None => None,
            },
            chall_root: self.chall_root@,
            hostname: self.hostname@,
            caddy: self.caddy@,
        }
    }
}

/// What the tool is asked to do.
#[derive(Debug, PartialEq, Eq)]
pub enum Commands {
    /// List every challenge with its deployment status.
    List,
    /// Build the images of the named challenges, or of all of them.
    Build { threads: usize, challs: Option<Vec<String>> },
    /// Deploy the named challenges, or all of them.
    Deploy { challs: Option<Vec<String>> },
    /// Fetch the scoreboard snapshot.
    Leaderboard,
}

/// The views of a sequence of viewable values, pointwise.
pub open spec fn seq_view<T: View>(s: Seq<T>) -> Seq<T::V> {
    Seq::new(s.len(), |i: int| s[i]@)
}

/// The views of an association list keyed by strings, pointwise.
pub open spec fn entries_view<T: View>(s: Seq<(String, T)>) -> Seq<(Seq<char>, T::V)> {
    Seq::new(s.len(), |i: int| (s[i].0@, s[i].1@))
}

/// The views of an optional vector of viewable values.
pub open spec fn opt_vec_view<T: View>(v: Option<Vec<T>>) -> Option<Seq<T::V>> {
    match v {
        Some(x) => Some(seq_view(x@)),
        None => None,
    }
}

/// The views of an optional association list keyed by strings.
pub open spec fn opt_entries_view<T: View>(v: Option<Vec<(String, T)>>) -> Option<
    Seq<(Seq<char>, T::V)>,
> {
    match v {
        Some(x) => Some(entries_view(x@)),
        None => None,
    }
}

/// Whether the keys of a model association list are pairwise distinct.
pub open spec fn model_keys_unique<T>(s: Seq<(Seq<char>, T)>) -> bool {
    forall|i: int, j: int| 0 <= i < j < s.len() ==> s[i].0 != s[j].0
}

pub broadcast proof fn lemma_seq_view_push<T: View>(s: Seq<T>, e: T)
    ensures
        #[trigger] seq_view(s.push(e)) == seq_view(s).push(e@),
{
    assert(seq_view(s.push(e)) =~= seq_view(s).push(e@));
}

pub broadcast proof fn lemma_seq_view_take<T: View>(s: Seq<T>, k: int)
    requires
        0 <= k <= s.len(),
    ensures
        #[trigger] seq_view(s.take(k)) == seq_view(s).take(k),
{
    assert(seq_view(s.take(k)) =~= seq_view(s).take(k));
}

pub broadcast proof fn lemma_entries_view_push<T: View>(s: Seq<(String, T)>, e: (String, T))
    ensures
        #[trigger] entries_view(s.push(e)) == entries_view(s).push((e.0@, e.1@)),
{
    assert(entries_view(s.push(e)) =~= entries_view(s).push((e.0@, e.1@)));
}

pub broadcast proof fn lemma_entries_view_take<T: View>(s: Seq<(String, T)>, k: int)
    requires
        0 <= k <= s.len(),
    ensures
        #[trigger] entries_view(s.take(k)) == entries_view(s).take(k),
{
    assert(entries_view(s.take(k)) =~= entries_view(s).take(k));
}

} // verus!
