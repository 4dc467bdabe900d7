//! Tracking-issue references: `{org, repo, number}` triples, rendered to
//! and parsed from the canonical cell form `[org/repo#number]`, with the
//! parse/render round trip proved.

use vstd::prelude::*;
use crate::errors::GoalError;
use crate::text::{find_char, find_char_in, lemma_find_char_props, lemma_find_char_first};

verus! {

/// A decimal digit.
pub open spec fn is_digit(c: char) -> bool {
    48 <= c as u32 <= 57
}

/// A canonical decimal number: non-empty, digits only, no leading zero
/// (except the number `0` itself).
pub open spec fn is_dec_string(s: Seq<char>) -> bool {
    s.len() >= 1
    && (forall|k: int| 0 <= k < s.len() ==> is_digit(#[trigger] s[k]))
    && (s[0] == '0' ==> s.len() == 1)
}

/// The mathematical content of an `IssueId`.
pub ghost struct IssueIdView {
    pub org: Seq<char>,
    pub repo: Seq<char>,
    pub number: Seq<char>,
}

/// A reference to one issue in the tracker: organization, repository and
/// issue number (kept in its canonical decimal spelling).
#[derive(Debug, Clone)]
pub struct IssueId {
    pub org: String,
    pub repo: String,
    pub number: String,
}

impl View for IssueId {
    type V = IssueIdView;

    open spec fn view(&self) -> IssueIdView {
        IssueIdView { org: self.org@, repo: self.repo@, number: self.number@ }
    }
}

impl IssueIdView {
    /// The fields an issue reference may hold: a non-empty organization
    /// without `/`, a non-empty repository without `#`, and a canonical
    /// decimal number. These are exactly the fields whose rendered form
    /// parses back unambiguously.
    pub open spec fn valid(self) -> bool {
        self.org.len() > 0
        && !self.org.contains('/')
        && self.repo.len() > 0
        && !self.repo.contains('#')
        && is_dec_string(self.number)
    }
}

/// The canonical cell form of an issue reference.
pub open spec fn render_issue(v: IssueIdView) -> Seq<char> {
    seq!['['] + v.org + seq!['/'] + v.repo + seq!['#'] + v.number + seq![']']
}

/// Parse of the canonical cell form: brackets stripped, the organization
/// read up to the first `/`, the repository up to the first `#`, then a
/// canonical decimal number.
pub open spec fn parse_issue(s: Seq<char>) -> Option<IssueIdView> {
    if s.len() >= 2 && s[0] == '[' && s[s.len() - 1] == ']' {
        let inner = s.subrange(1, s.len() - 1);
        match find_char(inner, '/') {
            None => None,
            Some(i) => {
                let org = inner.subrange(0, i);
                let rest = inner.subrange(i + 1, inner.len() as int);
                match find_char(rest, '#') {
                    None => None,
                    Some(j) => {
                        let repo = rest.subrange(0, j);
                        let number = rest.subrange(j + 1, rest.len() as int);
                        if org.len() > 0 && repo.len() > 0 && is_dec_string(number) {
                            Some(IssueIdView { org, repo, number })
                        } else {
                            None
                        }
                    },
                }
            },
        }
    } else {
        None
    }
}

/// Rendering a valid issue reference and parsing it back returns the
/// same reference.
pub proof fn lemma_issue_round_trip(v: IssueIdView)
    requires
        v.valid(),
    ensures
        parse_issue(render_issue(v)) == Some(v),
{
    let s = render_issue(v);
    let inner = v.org + seq!['/'] + v.repo + seq!['#'] + v.number;
    assert(s.len() == inner.len() + 2);
    assert(s[0] == '[');
    assert(s[s.len() - 1] == ']');
    assert(s.subrange(1, s.len() - 1) =~= inner);

    let i = v.org.len() as int;
    assert(inner[i] == '/');
    assert(forall|k: int| 0 <= k < i ==> inner[k] == v.org[k]);
    assert(forall|k: int| 0 <= k < i ==> inner[k] != '/') by {
        assert(forall|k: int| 0 <= k < i && inner[k] == '/' ==> v.org.contains('/'));
    }
    lemma_find_char_first(inner, '/', i);
    assert(inner.subrange(0, i) =~= v.org);

    let rest = v.repo + seq!['#'] + v.number;
    assert(inner.subrange(i + 1, inner.len() as int) =~= rest);

    let j = v.repo.len() as int;
    assert(rest[j] == '#');
    assert(forall|k: int| 0 <= k < j ==> rest[k] == v.repo[k]);
    assert(forall|k: int| 0 <= k < j ==> rest[k] != '#') by {
        assert(forall|k: int| 0 <= k < j && rest[k] == '#' ==> v.repo.contains('#'));
    }
    lemma_find_char_first(rest, '#', j);
    assert(rest.subrange(0, j) =~= v.repo);
    assert(rest.subrange(j + 1, rest.len() as int) =~= v.number);
}

/// What a successful parse says of its input: the parsed reference is
/// valid and renders back to exactly the parsed text.
pub proof fn lemma_parse_renders_back(s: Seq<char>, v: IssueIdView)
    requires
        parse_issue(s) == Some(v),
    ensures
        v.valid(),
        render_issue(v) == s,
{
    let inner = s.subrange(1, s.len() - 1);
    let i = find_char(inner, '/') -> Some_0;
    lemma_find_char_props(inner, '/');
    let org = inner.subrange(0, i);
    assert(!org.contains('/')) by {
        if org.contains('/') {
            let k = choose|k: int| 0 <= k < org.len() && org[k] == '/';
            assert(inner[k] == '/');
        }
    }
    let rest = inner.subrange(i + 1, inner.len() as int);
    let j = find_char(rest, '#') -> Some_0;
    lemma_find_char_props(rest, '#');
    let repo = rest.subrange(0, j);
    assert(!repo.contains('#')) by {
        if repo.contains('#') {
            let k = choose|k: int| 0 <= k < repo.len() && repo[k] == '#';
            assert(rest[k] == '#');
        }
    }
    let number = rest.subrange(j + 1, rest.len() as int);
    assert(rest =~= repo + seq!['#'] + number);
    assert(inner =~= org + seq!['/'] + rest);
    assert(render_issue(v) =~= s);
}

impl IssueId {
    /// Build an issue reference from its parts, checking validity.
    pub fn new(org: String, repo: String, number: String) -> (r: Result<IssueId, GoalError>)
        ensures
            match r {
                Ok(id) => id@ == (IssueIdView { org: org@, repo: repo@, number: number@ })
                    && id@.valid(),
                Err(e) => !(IssueIdView { org: org@, repo: repo@, number: number@ }).valid()
                    && e is InvalidIssue,
            },
    {
        let ok = org.as_str().unicode_len() > 0
            && find_char_in(org.as_str(), '/').is_none()
            && repo.as_str().unicode_len() > 0
            && find_char_in(repo.as_str(), '#').is_none()
            && is_dec_str(number.as_str());
        proof {
            lemma_find_char_props(org@, '/');
            lemma_find_char_props(repo@, '#');
            if org@.contains('/') {
                let k = choose|k: int| 0 <= k < org@.len() && org@[k] == '/';
                assert(find_char(org@, '/') is Some) by {
                    if find_char(org@, '/') is None {
                        assert(org@[k] != '/');
                    }
                }
            }
            if repo@.contains('#') {
                let k = choose|k: int| 0 <= k < repo@.len() && repo@[k] == '#';
                assert(find_char(repo@, '#') is Some) by {
                    if find_char(repo@, '#') is None {
                        assert(repo@[k] != '#');
                    }
                }
            }
            if find_char(org@, '/') is Some {
                assert(org@.contains('/'));
            }
            if find_char(repo@, '#') is Some {
                assert(repo@.contains('#'));
            }
        }
        if ok {
            Ok(IssueId { org, repo, number })
        } else {
            let mut found = org;
            found.append("/");
            found.append(repo.as_str());
            found.append("#");
            found.append(number.as_str());
            Err(GoalError::InvalidIssue { found })
        }
    }

    /// Render to the canonical cell form `[org/repo#number]`.
    pub fn render(&self) -> (r: String)
        ensures
            r@ == render_issue(self@),
    {
        let mut out = String::new();
        out.append("[");
        out.append(self.org.as_str());
        out.append("/");
        out.append(self.repo.as_str());
        out.append("#");
        out.append(self.number.as_str());
        out.append("]");
        proof {
            reveal_strlit("[");
            reveal_strlit("/");
            reveal_strlit("#");
            reveal_strlit("]");
            assert("["@ =~= seq!['[']);
            assert("/"@ =~= seq!['/']);
            assert("#"@ =~= seq!['#']);
            assert("]"@ =~= seq![']']);
            assert(out@ =~= render_issue(self@));
        }
        out
    }

    /// The issue's canonical URL form.
    pub fn url(&self) -> (r: String)
        ensures
            r@ == issue_url(self@),
    {
        let mut out = String::new();
        out.append("https://github.com/");
        out.append(self.org.as_str());
        out.append("/");
        out.append(self.repo.as_str());
        out.append("/issues/");
        out.append(self.number.as_str());
        proof {
            assert(out@ =~= issue_url(self@));
        }
        out
    }

    /// Parse a tracking-issue cell. Succeeds exactly on the canonical
    /// cell form of a valid issue reference.
    pub fn parse(s: &str) -> (r: Result<IssueId, GoalError>)
        ensures
            match r {
                Ok(id) => parse_issue(s@) == Some(id@),
                Err(e) => parse_issue(s@) is None
                    && (e matches GoalError::InvalidIssue { found } && found@ == s@),
            },
    {
        let len = s.unicode_len();
        if len < 2 || s.get_char(0) != '[' || s.get_char(len - 1) != ']' {
            return Err(GoalError::InvalidIssue { found: s.to_owned() });
        }
        let inner = s.substring_char(1, len - 1);
        proof {
            assert(inner@ =~= s@.subrange(1, s@.len() - 1));
        }
        let Some(i) = find_char_in(inner, '/') else {
            return Err(GoalError::InvalidIssue { found: s.to_owned() });
        };
        proof {
            lemma_find_char_props(inner@, '/');
        }
        let org = inner.substring_char(0, i);
        let rest = inner.substring_char(i + 1, inner.unicode_len());
        let Some(j) = find_char_in(rest, '#') else {
            return Err(GoalError::InvalidIssue { found: s.to_owned() });
        };
        proof {
            lemma_find_char_props(rest@, '#');
        }
        let repo = rest.substring_char(0, j);
        let number = rest.substring_char(j + 1, rest.unicode_len());
        if org.unicode_len() > 0 && repo.unicode_len() > 0 && is_dec_str(number) {
            Ok(IssueId {
                org: org.to_owned(),
                repo: repo.to_owned(),
                number: number.to_owned(),
            })
        } else {
            Err(GoalError::InvalidIssue { found: s.to_owned() })
        }
    }
}

/// The issue's canonical URL form.
pub open spec fn issue_url(v: IssueIdView) -> Seq<char> {
    "https://github.com/"@ + v.org + "/"@ + v.repo + "/issues/"@ + v.number
}

/// Whether `s` is a canonical decimal number.
pub fn is_dec_str(s: &str) -> (r: bool)
    ensures
        r == is_dec_string(s@),
{
    let len = s.unicode_len();
    if len == 0 {
        return false;
    }
    if s.get_char(0) == '0' && len != 1 {
        return false;
    }
    let mut k: usize = 0;
    while k < len
        invariant
            0 <= k <= len,
            len == s@.len(),
            forall|m: int| 0 <= m < k ==> is_digit(#[trigger] s@[m]),
        decreases len - k,
    {
        let c = s.get_char(k);
        let code = c as u32;
        if code < 48 || code > 57 {
            return false;
        }
        k = k + 1;
    }
    true
}

} // verus!
