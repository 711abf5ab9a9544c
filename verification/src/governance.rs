//! Governance: the hard validation gate between normalization and emission.
//!
//! Every rule is evaluated independently for every token, and every violation
//! is collected — never only the first — so one pass reports the whole state
//! of the export. A non-empty report halts the pipeline before any artifact
//! is rendered.

use vstd::prelude::*;

use crate::ingest::{dotted, dotted_path, sentinel_type, tokens_view, RawValue, Token, TokenModel};
use crate::OrchestratorError;

verus! {

/// The characters with Unicode's White_Space property: exactly the set a
/// trim of surrounding whitespace strips.
pub open spec fn is_space_char(c: char) -> bool {
    ||| c == '\t'
    ||| c == '\n'
    ||| c == '\u{000B}'
    ||| c == '\u{000C}'
    ||| c == '\r'
    ||| c == ' '
    ||| c == '\u{0085}'
    ||| c == '\u{00A0}'
    ||| c == '\u{1680}'
    ||| c == '\u{2000}'
    ||| c == '\u{2001}'
    ||| c == '\u{2002}'
    ||| c == '\u{2003}'
    ||| c == '\u{2004}'
    ||| c == '\u{2005}'
    ||| c == '\u{2006}'
    ||| c == '\u{2007}'
    ||| c == '\u{2008}'
    ||| c == '\u{2009}'
    ||| c == '\u{200A}'
    ||| c == '\u{2028}'
    ||| c == '\u{2029}'
    ||| c == '\u{202F}'
    ||| c == '\u{205F}'
    ||| c == '\u{3000}'
}

/// Whether `c` has the White_Space property.
fn space_char(c: char) -> (r: bool)
    ensures
        r == is_space_char(c),
{
    c == '\t' || c == '\n' || c == '\u{000B}' || c == '\u{000C}' || c == '\r' || c == ' '
        || c == '\u{0085}' || c == '\u{00A0}' || c == '\u{1680}' || c == '\u{2000}' || c
        == '\u{2001}' || c == '\u{2002}' || c == '\u{2003}' || c == '\u{2004}' || c
        == '\u{2005}' || c == '\u{2006}' || c == '\u{2007}' || c == '\u{2008}' || c
        == '\u{2009}' || c == '\u{200A}' || c == '\u{2028}' || c == '\u{2029}' || c
        == '\u{202F}' || c == '\u{205F}' || c == '\u{3000}'
}

/// Text that is empty or made of whitespace alone.
pub open spec fn blank_text(s: Seq<char>) -> bool {
    forall|j: int| 0 <= j < s.len() ==> is_space_char(#[trigger] s[j])
}

/// Rule 1: the token's type tag is blank or still the sentinel.
pub open spec fn type_unrecognised(t: TokenModel) -> bool {
    blank_text(t.token_type) || t.token_type == sentinel_type()
}

/// Rule 2: some path segment is blank.
pub open spec fn has_blank_segment(path: Seq<Seq<char>>) -> bool {
    exists|j: int| 0 <= j < path.len() && blank_text(#[trigger] path[j])
}

/// The violation messages of one token, in rule order.
pub open spec fn token_violations(t: TokenModel) -> Seq<Seq<char>> {
    (if type_unrecognised(t) {
        seq![dotted(t.path) + " has no recognised type"@]
    } else {
        Seq::empty()
    }) + (if has_blank_segment(t.path) {
        seq![dotted(t.path) + " contains an empty path segment"@]
    } else {
        Seq::empty()
    }) + (if t.value is Null {
        seq![dotted(t.path) + " has a null value"@]
    } else {
        Seq::empty()
    })
}

/// All violation messages of the first `i` tokens, in token order.
pub open spec fn all_violations_upto(ts: Seq<TokenModel>, i: int) -> Seq<Seq<char>>
    decreases i,
{
    if i <= 0 {
        Seq::empty()
    } else {
        all_violations_upto(ts, i - 1) + token_violations(ts[i - 1])
    }
}

/// All violation messages of a token list, in token order.
pub open spec fn all_violations(ts: Seq<TokenModel>) -> Seq<Seq<char>> {
    all_violations_upto(ts, ts.len() as int)
}

/// The first `i` messages rendered as a bulleted report, one line each.
pub open spec fn report_upto(vs: Seq<Seq<char>>, i: int) -> Seq<char>
    decreases i,
{
    if i <= 0 {
        Seq::empty()
    } else {
        report_upto(vs, i - 1) + "- "@ + vs[i - 1] + "\n"@
    }
}

/// A violation list rendered as a bulleted report, one line per violation.
pub open spec fn report_text(vs: Seq<Seq<char>>) -> Seq<char> {
    report_upto(vs, vs.len() as int)
}

/// Whether `s` is empty or whitespace alone.
#[verifier::loop_isolation(false)]
fn is_blank(s: &String) -> (r: bool)
    ensures
        r == blank_text(s@),
{
    let n = s.as_str().unicode_len();
    let mut i: usize = 0;
    while i < n
        invariant
            i <= n,
            forall|j: int| 0 <= j < i ==> is_space_char(#[trigger] s@[j]),
        decreases n - i,
    {
        let c = s.as_str().get_char(i);
        if !space_char(c) {
            return false;
        }
        i = i + 1;
    }
    true
}

/// Whether some segment of `path` is blank.
#[verifier::loop_isolation(false)]
fn any_blank_segment(path: &Vec<String>) -> (r: bool)
    ensures
        r == has_blank_segment(path.deep_view()),
{
    let mut i: usize = 0;
    while i < path.len()
        invariant
            i <= path.len(),
            forall|j: int| 0 <= j < i ==> !blank_text(#[trigger] path.deep_view()[j]),
        decreases path.len() - i,
    {
        if is_blank(&path[i]) {
            assert(blank_text(path.deep_view()[i as int]));
            return true;
        }
        i = i + 1;
    }
    false
}

/// Validates a normalized token list against the governance contract.
///
/// Passes exactly when no token violates any rule; otherwise returns the
/// aggregated report that lists every violation of every token, one bulleted
/// line each, in token order and rule order.
#[verifier::loop_isolation(false)]
pub fn validate(tokens: &Vec<Token>) -> (r: Result<(), OrchestratorError>)
    ensures
        match r {
            Result::Ok(_) => all_violations(tokens_view(tokens@)).len() == 0,
            Result::Err(e) => match e {
                OrchestratorError::Governance(m) => all_violations(tokens_view(tokens@)).len() > 0
                    && m@ == report_text(all_violations(tokens_view(tokens@))),
                _ => false,
            },
        },
{
    let ghost tv = tokens_view(tokens@);
    let mut violations: Vec<String> = Vec::new();
    proof {
        assert(violations.deep_view() =~= all_violations_upto(tv, 0));
    }
    let mut i: usize = 0;
    while i < tokens.len()
        invariant
            i <= tokens.len(),
            violations.deep_view() == all_violations_upto(tv, i as int),
        decreases tokens.len() - i,
    {
        let ghost old_v = violations.deep_view();
        let t = &tokens[i];
        let dp = dotted_path(&t.path);
        let unknown = String::from_str("unknown");
        if is_blank(&t.token_type) || t.token_type == unknown {
            let mut m = dp.clone();
            m.append(" has no recognised type");
            violations.push(m);
        }
        if any_blank_segment(&t.path) {
            let mut m = dp.clone();
            m.append(" contains an empty path segment");
            violations.push(m);
        }
        let null_value: bool = match &t.value {
            RawValue::Null => true,
            _ => false,
        };
        if null_value {
            let mut m = dp.clone();
            m.append(" has a null value");
            violations.push(m);
        }
        proof {
            assert(violations.deep_view() =~= old_v + token_violations(tv[i as int]));
        }
        i = i + 1;
    }
    if violations.len() == 0 {
        proof {
            assert(all_violations(tv).len() == 0);
        }
        Result::Ok(())
    } else {
        let mut m = String::new();
        let mut j: usize = 0;
        while j < violations.len()
            invariant
                j <= violations.len(),
                m@ == report_upto(violations.deep_view(), j as int),
            decreases violations.len() - j,
        {
            m.append("- ");
            m.append(violations[j].as_str());
            m.append("\n");
            j = j + 1;
        }
        Result::Err(OrchestratorError::Governance(m))
    }
}

/// Extending the token range keeps every already-reported message.
proof fn lemma_upto_contains(ts: Seq<TokenModel>, i: int, j: int, m: Seq<char>)
    requires
        0 <= i <= j <= ts.len(),
        all_violations_upto(ts, i).contains(m),
    ensures
        all_violations_upto(ts, j).contains(m),
    decreases j - i,
{
    if j > i {
        lemma_upto_contains(ts, i, j - 1, m);
        let p = choose|p: int|
            0 <= p < all_violations_upto(ts, j - 1).len() && #[trigger] all_violations_upto(
                ts,
                j - 1,
            )[p] == m;
        assert(all_violations_upto(ts, j)[p] == m);
    }
}

/// The governance gate reports all violations in one pass: every violation
/// message of every token appears in the aggregated list.
pub proof fn lemma_governance_reports_all(ts: Seq<TokenModel>, i: int, p: int)
    requires
        0 <= i < ts.len(),
        0 <= p < token_violations(ts[i]).len(),
    ensures
        all_violations(ts).contains(token_violations(ts[i])[p]),
{
    let m = token_violations(ts[i])[p];
    let before = all_violations_upto(ts, i);
    assert(all_violations_upto(ts, i + 1)[before.len() + p] == m);
    assert(all_violations_upto(ts, i + 1).contains(m));
    lemma_upto_contains(ts, i + 1, ts.len() as int, m);
}

} // verus!
