//! The command extractor and safety gate: finds the first fenced bash block
//! in a completion, and decides whether its body may be run.

use vstd::prelude::*;

verus! {

/// `pat` occurs in `s` starting exactly at index `i`.
pub open spec fn occurs_at(s: Seq<char>, pat: Seq<char>, i: int) -> bool {
    0 <= i && i + pat.len() <= s.len() && s.subrange(i, i + pat.len() as int) == pat
}

/// `pat` occurs somewhere in `s`.
pub open spec fn occurs(s: Seq<char>, pat: Seq<char>) -> bool {
    exists|i: int| occurs_at(s, pat, i)
}

/// Index of the first occurrence of `pat` in `s`, if there is one.
pub open spec fn first_occurrence(s: Seq<char>, pat: Seq<char>) -> Option<int>
    decreases s.len(),
{
    if pat.len() > s.len() {
        None
    } else if s.subrange(0, pat.len() as int) == pat {
        Some(0)
    } else if s.len() == 0 {
        None
    } else {
        match first_occurrence(s.drop_first(), pat) {
            Some(i) => Some(i + 1),
            None => None,
        }
    }
}

/// `first_occurrence` returns exactly the least index at which `pat` occurs,
/// and `None` exactly when `pat` does not occur at all.
pub proof fn lemma_first_occurrence(s: Seq<char>, pat: Seq<char>)
    ensures
        match first_occurrence(s, pat) {
            Some(i) => occurs_at(s, pat, i) && (forall|j: int| 0 <= j < i ==> !occurs_at(s, pat, j)),
            None => forall|j: int| !occurs_at(s, pat, j),
        },
    decreases s.len(),
{
    if pat.len() > s.len() {
    } else if s.subrange(0, pat.len() as int) == pat {
        assert(occurs_at(s, pat, 0));
    } else if s.len() == 0 {
    } else {
        lemma_first_occurrence(s.drop_first(), pat);
        assert forall|j: int| 1 <= j implies occurs_at(s, pat, j) == occurs_at(
            s.drop_first(),
            pat,
            j - 1,
        ) by {
            if j + pat.len() <= s.len() {
                assert(s.drop_first().subrange(j - 1, j - 1 + pat.len() as int) =~= s.subrange(
                    j,
                    j + pat.len() as int,
                ));
            }
        }
        assert(!occurs_at(s, pat, 0));
    }
}

/// When `pat` occurs at `i` and nowhere earlier, `i` is what
/// `first_occurrence` returns.
pub proof fn lemma_first_occurrence_is(s: Seq<char>, pat: Seq<char>, i: int)
    requires
        occurs_at(s, pat, i),
        forall|j: int| 0 <= j < i ==> !occurs_at(s, pat, j),
    ensures
        first_occurrence(s, pat) == Some(i),
{
    lemma_first_occurrence(s, pat);
}

/// Whether `pat` occurs in `s` at exactly character index `i`.
fn match_at(s: &str, pat: &str, i: usize) -> (r: bool)
    requires
        i + pat@.len() <= s@.len(),
    ensures
        r == occurs_at(s@, pat@, i as int),
{
    let n = s.unicode_len();
    let m = pat.unicode_len();
    let mut j: usize = 0;
    while j < m
        invariant
            n == s@.len(),
            m == pat@.len(),
            i + m <= n,
            j <= m,
            forall|k: int| 0 <= k < j ==> s@[i + k] == pat@[k],
        decreases m - j,
    {
        if s.get_char(i + j) != pat.get_char(j) {
            assert(!occurs_at(s@, pat@, i as int)) by {
                if occurs_at(s@, pat@, i as int) {
                    assert(s@.subrange(i as int, i as int + m as int)[j as int] == s@[i + j]);
                }
            }
            return false;
        }
        j += 1;
    }
    assert(s@.subrange(i as int, i as int + m as int) =~= pat@);
    true
}

/// Character index of the first occurrence of `pat` in `s`, if there is one.
pub fn find_pat(s: &str, pat: &str) -> (r: Option<usize>)
    ensures
        match r {
            Some(i) => occurs_at(s@, pat@, i as int) && (forall|j: int|
                0 <= j < i ==> !occurs_at(s@, pat@, j)),
            None => !occurs(s@, pat@),
        },
{
    let n = s.unicode_len();
    let m = pat.unicode_len();
    if m > n {
        return None;
    }
    let mut i: usize = 0;
    while i <= n - m
        invariant
            n == s@.len(),
            m == pat@.len(),
            m <= n,
            i <= n - m + 1,
            forall|j: int| 0 <= j < i ==> !occurs_at(s@, pat@, j),
        decreases n - m - i + 1,
    {
        if match_at(s, pat, i) {
            return Some(i);
        }
        assert(m > 0) by {
            if m == 0 {
                assert(s@.subrange(i as int, i as int) =~= pat@);
            }
        }
        i += 1;
    }
    None
}

/// Opening fence of a bash block: the tag line, newline included.
pub open spec fn open_fence() -> Seq<char> {
    "```bash\n"@
}

/// Closing fence: the newline that ends the body, then the closing backticks.
pub open spec fn close_fence() -> Seq<char> {
    "\n```"@
}

/// The candidate command of a completion: the body of the first fenced bash
/// block — the shortest text between the first opening fence and the next
/// closing fence — or empty when no complete block is present.
pub open spec fn extract_spec(raw: Seq<char>) -> Seq<char> {
    match first_occurrence(raw, open_fence()) {
        Some(i) => {
            let rest = raw.subrange(i + open_fence().len(), raw.len() as int);
            match first_occurrence(rest, close_fence()) {
                Some(j) => rest.subrange(0, j),
                None => Seq::empty(),
            }
        },
        None => Seq::empty(),
    }
}

/// Extracts the candidate command from a raw completion: the body of the
/// first fenced bash block, verbatim, or the empty string when no complete
/// block is present.
pub fn extract(raw: &str) -> (r: String)
    ensures
        r@ == extract_spec(raw@),
{
    let open = "```bash\n";
    let close = "\n```";
    let n = raw.unicode_len();
    match find_pat(raw, open) {
        Some(i) => {
            proof {
                reveal_strlit("```bash\n");
                lemma_first_occurrence_is(raw@, open_fence(), i as int);
            }
            let start = i + 8;
            let rest = raw.substring_char(start, n);
            match find_pat(rest, close) {
                Some(j) => {
                    proof {
                        lemma_first_occurrence_is(rest@, close_fence(), j as int);
                    }
                    let body = rest.substring_char(0, j);
                    body.to_owned()
                },
                None => {
                    proof {
                        lemma_first_occurrence(rest@, close_fence());
                    }
                    String::new()
                },
            }
        },
        None => {
            proof {
                lemma_first_occurrence(raw@, open_fence());
            }
            String::new()
        },
    }
}

/// A completion with no opening bash fence yields the empty candidate; in
/// particular a fenceless text, or one whose blocks carry any other language
/// tag, extracts to nothing.
pub proof fn lemma_extract_no_fence(raw: Seq<char>)
    requires
        !occurs(raw, open_fence()),
    ensures
        extract_spec(raw) == Seq::<char>::empty(),
{
    lemma_first_occurrence(raw, open_fence());
    match first_occurrence(raw, open_fence()) {
        Some(i) => {
            assert(occurs_at(raw, open_fence(), i));
            assert(false);
        },
        None => {},
    }
}

/// A completion holding a well-formed single-line block — whose opening
/// fence is the first in the text and whose body is one line — yields exactly
/// that body, with no further trimming, whatever text (later blocks
/// included) comes before or after it.
pub proof fn lemma_extract_first_block(pre: Seq<char>, cmd: Seq<char>, post: Seq<char>)
    requires
        forall|j: int|
            0 <= j < pre.len() ==> !occurs_at(
                pre + open_fence() + cmd + close_fence() + post,
                open_fence(),
                j,
            ),
        forall|k: int| 0 <= k < cmd.len() ==> cmd[k] != '\n',
    ensures
        extract_spec(pre + open_fence() + cmd + close_fence() + post) == cmd,
{
    reveal_strlit("```bash\n");
    reveal_strlit("\n```");
    let raw = pre + open_fence() + cmd + close_fence() + post;
    let o = open_fence().len() as int;
    let c = close_fence().len() as int;
    let p = pre.len() as int;
    let m = cmd.len() as int;
    assert(raw.subrange(p, p + o) =~= open_fence());
    assert(occurs_at(raw, open_fence(), p));
    lemma_first_occurrence_is(raw, open_fence(), p);
    let rest = raw.subrange(p + o, raw.len() as int);
    assert(rest =~= cmd + close_fence() + post);
    assert(rest.subrange(m, m + c) =~= close_fence());
    assert(occurs_at(rest, close_fence(), m));
    assert forall|j: int| 0 <= j < m implies !occurs_at(rest, close_fence(), j) by {
        if occurs_at(rest, close_fence(), j) {
            assert(rest.subrange(j, j + c)[0] == rest[j]);
            assert(rest[j] == cmd[j]);
            assert(close_fence()[0] == '\n');
        }
    }
    lemma_first_occurrence_is(rest, close_fence(), m);
    assert(rest.subrange(0, m) =~= cmd);
}

/// An ordered list of literal substrings whose presence in a candidate
/// command forces rejection. Immutable once built; injected into `classify`
/// so that alternate policies can be substituted.
pub struct Denylist {
    pub entries: Vec<String>,
}

impl View for Denylist {
    type V = Seq<Seq<char>>;

    open spec fn view(&self) -> Seq<Seq<char>> {
        self.entries@.map_values(|e: String| e@)
    }
}

impl Denylist {
    /// Builds a denylist from its entries, in order.
    pub fn new(entries: Vec<String>) -> (r: Denylist)
        ensures
            r@ == entries@.map_values(|e: String| e@),
    {
        Denylist { entries }
    }

    /// The standard policy: destructive or irreversible shell operations.
    pub fn standard() -> (r: Denylist)
        ensures
            r@ == standard_denylist(),
    {
        let mut entries: Vec<String> = Vec::new();
        entries.push("rm".to_owned());
        entries.push("rm -rf".to_owned());
        entries.push("rmdir".to_owned());
        entries.push("cp".to_owned());
        entries.push("chmod".to_owned());
        let r = Denylist { entries };
        proof {
            assert(r@ =~= standard_denylist());
        }
        r
    }
}

/// The entries of the standard denylist, in order.
pub open spec fn standard_denylist() -> Seq<Seq<char>> {
    seq!["rm"@, "rm -rf"@, "rmdir"@, "cp"@, "chmod"@]
}

/// The candidate contains some denylist entry as a substring.
pub open spec fn hits(c: Seq<char>, deny: Seq<Seq<char>>) -> bool {
    exists|k: int| 0 <= k < deny.len() && occurs(c, #[trigger] deny[k])
}

/// Why a candidate command was rejected.
pub enum Reason {
    /// The candidate was empty: no complete fenced block was found, or its
    /// body had no characters.
    Empty,
    /// The candidate contains the recorded denylist entry as a substring.
    Unsafe(String),
}

/// The terminal outcome of the safety gate: run this exact command, or run
/// nothing.
pub enum Decision {
    Allowed(String),
    Rejected(Reason),
}

/// Decides whether a candidate command may be run: rejects the empty
/// candidate, rejects any candidate containing a denylist entry as a
/// substring (recording the first such entry in denylist order), and allows
/// everything else verbatim.
pub fn classify(candidate: &str, deny: &Denylist) -> (r: Decision)
    ensures
        match r {
            Decision::Allowed(cmd) => candidate@.len() > 0 && !hits(candidate@, deny@) && cmd@
                == candidate@,
            Decision::Rejected(reason) => match reason {
                Reason::Empty => candidate@.len() == 0,
                Reason::Unsafe(e) => candidate@.len() > 0 && (exists|k: int|
                    0 <= k < deny@.len() && e@ == #[trigger] deny@[k] && occurs(candidate@, deny@[k])
                        && (forall|k2: int| 0 <= k2 < k ==> !occurs(candidate@, #[trigger] deny@[k2]))),
            },
        },
{
    if candidate.unicode_len() == 0 {
        return Decision::Rejected(Reason::Empty);
    }
    let ghost dv: Seq<Seq<char>> = deny@;
    let mut k: usize = 0;
    while k < deny.entries.len()
        invariant
            dv == deny@,
            dv.len() == deny.entries@.len(),
            k <= deny.entries@.len(),
            candidate@.len() > 0,
            forall|k2: int| 0 <= k2 < k ==> !occurs(candidate@, #[trigger] dv[k2]),
        decreases deny.entries@.len() - k,
    {
        let entry: &String = &deny.entries[k];
        let found = find_pat(candidate, entry.as_str());
        if found.is_some() {
            proof {
                assert(occurs(candidate@, entry@));
                assert(dv[k as int] == entry@);
            }
            return Decision::Rejected(Reason::Unsafe(entry.clone()));
        }
        proof {
            assert(!occurs(candidate@, dv[k as int]));
        }
        k += 1;
    }
    Decision::Allowed(candidate.to_owned())
}

/// The whole gate on a raw completion: the candidate body of the first
/// fenced bash block, or empty when that body contains a denylist entry.
pub open spec fn clean_response_spec(raw: Seq<char>, deny: Seq<Seq<char>>) -> Seq<char> {
    let body = extract_spec(raw);
    if hits(body, deny) {
        Seq::empty()
    } else {
        body
    }
}

/// Extracts the candidate command and applies the standard denylist: the
/// result is the command to run verbatim, or the empty string when nothing
/// may be run.
pub fn clean_response(response: &str) -> (r: String)
    ensures
        r@ == clean_response_spec(response@, standard_denylist()),
{
    let deny = Denylist::standard();
    let body = extract(response);
    match classify(body.as_str(), &deny) {
        Decision::Allowed(cmd) => cmd,
        Decision::Rejected(_) => String::new(),
    }
}

/// Extraction and cleaning keep no state: equal completions under equal
/// denylists give equal candidate commands and equal cleaned commands.
pub proof fn lemma_gate_deterministic(raw1: Seq<char>, raw2: Seq<char>, deny: Seq<Seq<char>>)
    requires
        raw1 == raw2,
    ensures
        extract_spec(raw1) == extract_spec(raw2),
        clean_response_spec(raw1, deny) == clean_response_spec(raw2, deny),
{
}

} // verus!
