//! The issue collector: an accumulator of validation findings with a
//! severity, a message and an optional structural-path context, and a
//! deterministic human-readable report over them.

use vstd::prelude::*;
use vstd::string::StrSliceExecFns;
use vstd::string::StringExecFns;

use crate::text::lemma_contains_concat_left;
use crate::text::lemma_contains_concat_right;
use crate::text::lemma_contains_trim_end;
use crate::text::lemma_contains_within;
use crate::text::spec_contains_seq;
use crate::text::spec_dec;
use crate::text::spec_is_space;
use crate::text::spec_trim_end;
use crate::text::trim_end;
use crate::text::u64_to_string;

verus! {

/// Issue severity levels.
#[derive(Debug, Clone, PartialEq, Eq, Structural)]
pub enum IssueSeverity {
    Error,
    Warning,
}

/// A single validation issue.
#[derive(Debug, Clone, PartialEq)]
pub struct ValidationIssue {
    pub severity: IssueSeverity,
    pub message: String,
    pub context: Option<String>,
}

/// Mathematical view of a `ValidationIssue`.
pub ghost struct IssueV {
    pub severity: IssueSeverity,
    pub message: Seq<char>,
    pub context: Option<Seq<char>>,
}

impl View for ValidationIssue {
    type V = IssueV;

    open spec fn view(&self) -> IssueV {
        IssueV {
            severity: self.severity,
            message: self.message@,
            context: match self.context {
                Some(c) => Some(c@),
                None => None,
            },
        }
    }
}

/// An issue that counts against conformance.
pub open spec fn is_error(i: IssueV) -> bool {
    i.severity == IssueSeverity::Error
}

/// An issue that is only a recommendation.
pub open spec fn is_warning(i: IssueV) -> bool {
    i.severity == IssueSeverity::Warning
}

/// An error finding with the given message and context.
pub open spec fn spec_error_issue(message: Seq<char>, context: Seq<char>) -> IssueV {
    IssueV { severity: IssueSeverity::Error, message, context: Some(context) }
}

/// A warning finding with the given message and context.
pub open spec fn spec_warning_issue(message: Seq<char>, context: Seq<char>) -> IssueV {
    IssueV { severity: IssueSeverity::Warning, message, context: Some(context) }
}

impl ValidationIssue {
    /// A context-free error finding.
    pub fn error(message: &str) -> (r: Self)
        ensures
            r@ == (IssueV {
                severity: IssueSeverity::Error,
                message: message@,
                context: None,
            }),
    {
        ValidationIssue {
            severity: IssueSeverity::Error,
            message: String::from_str(message),
            context: None,
        }
    }

    /// A context-free warning finding.
    pub fn warning(message: &str) -> (r: Self)
        ensures
            r@ == (IssueV {
                severity: IssueSeverity::Warning,
                message: message@,
                context: None,
            }),
    {
        ValidationIssue {
            severity: IssueSeverity::Warning,
            message: String::from_str(message),
            context: None,
        }
    }

    /// The same finding, placed at a structural path.
    pub fn with_context(self, context: &str) -> (r: Self)
        ensures
            r@ == (IssueV { context: Some(context@), ..self@ }),
    {
        ValidationIssue { context: Some(String::from_str(context)), ..self }
    }
}

/// Collection of validation issues, in insertion order.
#[derive(Debug, Clone)]
pub struct ValidationIssues {
    issues: Vec<ValidationIssue>,
}

impl View for ValidationIssues {
    type V = Seq<IssueV>;

    closed spec fn view(&self) -> Seq<IssueV> {
        self.issues@.map_values(|i: ValidationIssue| i@)
    }
}

/// True when some finding is an error.
pub open spec fn spec_has_errors(s: Seq<IssueV>) -> bool {
    exists|i: int| 0 <= i < s.len() && is_error(#[trigger] s[i])
}

/// True when some finding is a warning.
pub open spec fn spec_has_warnings(s: Seq<IssueV>) -> bool {
    exists|i: int| 0 <= i < s.len() && is_warning(#[trigger] s[i])
}

/// The error findings, in insertion order.
pub open spec fn spec_errors(s: Seq<IssueV>) -> Seq<IssueV> {
    s.filter(|i: IssueV| is_error(i))
}

/// The warning findings, in insertion order.
pub open spec fn spec_warnings(s: Seq<IssueV>) -> Seq<IssueV> {
    s.filter(|i: IssueV| is_warning(i))
}

/// The number of error findings.
pub open spec fn spec_error_count(s: Seq<IssueV>) -> nat {
    spec_errors(s).len()
}

/// The number of warning findings.
pub open spec fn spec_warning_count(s: Seq<IssueV>) -> nat {
    spec_warnings(s).len()
}

/// One report bullet for a finding.
pub open spec fn spec_bullet(i: IssueV) -> Seq<char> {
    match i.context {
        Some(c) => "  -  ["@ + c + "] "@ + i.message + "\n"@,
        None => "  -  "@ + i.message + "\n"@,
    }
}

/// The report bullets for a list of findings, one per finding, in order.
pub open spec fn spec_bullets(s: Seq<IssueV>) -> Seq<char>
    decreases s.len(),
{
    if s.len() == 0 {
        Seq::empty()
    } else {
        spec_bullets(s.drop_last()) + spec_bullet(s.last())
    }
}

/// The header line above the error bullets.
pub open spec fn spec_error_header(n: int) -> Seq<char> {
    "Found the following "@ + spec_dec(n) + " error(s) during the validation:\n"@
}

/// The header line above the warning bullets.
pub open spec fn spec_warning_header(n: int) -> Seq<char> {
    "Found the following "@ + spec_dec(n) + " warning(s) during the validation:\n"@
}

/// The rendered report: empty without findings; otherwise the error
/// block, a blank separator line only when both severities occur, the
/// warning block, with trailing white space trimmed.
pub open spec fn spec_report(s: Seq<IssueV>) -> Seq<char> {
    if s.len() == 0 {
        Seq::empty()
    } else {
        let errors = spec_errors(s);
        let warnings = spec_warnings(s);
        let eblock: Seq<char> = if errors.len() > 0 {
            spec_error_header(errors.len() as int) + spec_bullets(errors)
        } else {
            Seq::empty()
        };
        let sep: Seq<char> = if errors.len() > 0 && warnings.len() > 0 {
            "\n"@
        } else {
            Seq::empty()
        };
        let wblock: Seq<char> = if warnings.len() > 0 {
            spec_warning_header(warnings.len() as int) + spec_bullets(warnings)
        } else {
            Seq::empty()
        };
        spec_trim_end(eblock + sep + wblock)
    }
}

/// Append the bullet of one finding to the report text.
fn append_bullet(result: &mut String, issue: &ValidationIssue)
    ensures
        final(result)@ == old(result)@ + spec_bullet(issue@),
{
    match &issue.context {
        Some(c) => {
            result.append("  -  [");
            result.append(c.as_str());
            result.append("] ");
            result.append(issue.message.as_str());
            result.append("\n");
        },
        None => {
            result.append("  -  ");
            result.append(issue.message.as_str());
            result.append("\n");
        },
    }
    proof {
        assert(result@ =~= old(result)@ + spec_bullet(issue@));
    }
}

impl ValidationIssues {
    /// An empty collection.
    pub fn new() -> (r: Self)
        ensures
            r@ =~= Seq::<IssueV>::empty(),
    {
        ValidationIssues { issues: Vec::new() }
    }

    /// Append a context-free error.
    pub fn add_error(&mut self, message: &str)
        ensures
            final(self)@ =~= old(self)@.push(
                IssueV { severity: IssueSeverity::Error, message: message@, context: None },
            ),
    {
        self.issues.push(ValidationIssue::error(message));
    }

    /// Append a context-free warning.
    pub fn add_warning(&mut self, message: &str)
        ensures
            final(self)@ =~= old(self)@.push(
                IssueV { severity: IssueSeverity::Warning, message: message@, context: None },
            ),
    {
        self.issues.push(ValidationIssue::warning(message));
    }

    /// Append an error placed at a structural path.
    pub fn add_error_with_context(&mut self, message: &str, context: &str)
        ensures
            final(self)@ =~= old(self)@.push(spec_error_issue(message@, context@)),
    {
        self.issues.push(ValidationIssue::error(message).with_context(context));
    }

    /// Append a warning placed at a structural path.
    pub fn add_warning_with_context(&mut self, message: &str, context: &str)
        ensures
            final(self)@ =~= old(self)@.push(spec_warning_issue(message@, context@)),
    {
        self.issues.push(ValidationIssue::warning(message).with_context(context));
    }

    /// Whether any finding so far is an error.
    pub fn has_errors(&self) -> (r: bool)
        ensures
            r == spec_has_errors(self@),
    {
        let mut i: usize = 0;
        while i < self.issues.len()
            invariant
                i <= self.issues.len(),
                self@.len() == self.issues@.len(),
                forall|j: int| 0 <= j < i ==> !is_error(#[trigger] self@[j]),
            decreases self.issues.len() - i,
        {
            proof {
                assert(self@[i as int] == self.issues@[i as int]@);
            }
            if self.issues[i].severity == IssueSeverity::Error {
                return true;
            }
            i += 1;
        }
        false
    }

    /// Whether any finding so far is a warning.
    pub fn has_warnings(&self) -> (r: bool)
        ensures
            r == spec_has_warnings(self@),
    {
        let mut i: usize = 0;
        while i < self.issues.len()
            invariant
                i <= self.issues.len(),
                self@.len() == self.issues@.len(),
                forall|j: int| 0 <= j < i ==> !is_warning(#[trigger] self@[j]),
            decreases self.issues.len() - i,
        {
            proof {
                assert(self@[i as int] == self.issues@[i as int]@);
            }
            if self.issues[i].severity == IssueSeverity::Warning {
                return true;
            }
            i += 1;
        }
        false
    }

    /// The number of error findings so far.
    pub fn error_count(&self) -> (r: usize)
        ensures
            r == spec_error_count(self@),
    {
        let mut count: usize = 0;
        let mut i: usize = 0;
        while i < self.issues.len()
            invariant
                i <= self.issues.len(),
                self@.len() == self.issues@.len(),
                count == spec_error_count(self@.take(i as int)),
                count <= i,
            decreases self.issues.len() - i,
        {
            proof {
                reveal(Seq::filter);
                assert(self@[i as int] == self.issues@[i as int]@);
                assert(self@.take(i + 1).drop_last() =~= self@.take(i as int));
                assert(self@.take(i + 1).last() == self@[i as int]);
                assert(spec_error_count(self@.take(i + 1)) == spec_error_count(
                    self@.take(i as int),
                ) + if is_error(self@[i as int]) {
                    1int
                } else {
                    0int
                });
            }
            if self.issues[i].severity == IssueSeverity::Error {
                count += 1;
            }
            i += 1;
        }
        proof {
            assert(self@.take(self@.len() as int) =~= self@);
        }
        count
    }

    /// The number of warning findings so far.
    pub fn warning_count(&self) -> (r: usize)
        ensures
            r == spec_warning_count(self@),
    {
        let mut count: usize = 0;
        let mut i: usize = 0;
        while i < self.issues.len()
            invariant
                i <= self.issues.len(),
                self@.len() == self.issues@.len(),
                count == spec_warning_count(self@.take(i as int)),
                count <= i,
            decreases self.issues.len() - i,
        {
            proof {
                reveal(Seq::filter);
                assert(self@[i as int] == self.issues@[i as int]@);
                assert(self@.take(i + 1).drop_last() =~= self@.take(i as int));
                assert(self@.take(i + 1).last() == self@[i as int]);
                assert(spec_warning_count(self@.take(i + 1)) == spec_warning_count(
                    self@.take(i as int),
                ) + if is_warning(self@[i as int]) {
                    1int
                } else {
                    0int
                });
            }
            if self.issues[i].severity == IssueSeverity::Warning {
                count += 1;
            }
            i += 1;
        }
        proof {
            assert(self@.take(self@.len() as int) =~= self@);
        }
        count
    }

    /// Whether nothing has been collected.
    pub fn is_empty(&self) -> (r: bool)
        ensures
            r == (self@.len() == 0),
    {
        self.issues.len() == 0
    }

    /// Render the deterministic, human-readable summary of all findings.
    pub fn report(&self) -> (r: String)
        ensures
            r@ == spec_report(self@),
    {
        if self.issues.len() == 0 {
            proof {
                assert(self@.len() == 0);
            }
            return String::new();
        }
        proof {
            assert(self@.len() == self.issues@.len());
        }
        let ghost errs = spec_errors(self@);
        let ghost warns = spec_warnings(self@);
        let ecount = self.error_count();
        let wcount = self.warning_count();
        let mut result = String::new();
        if ecount > 0 {
            result.append("Found the following ");
            let n = u64_to_string(ecount as u64);
            result.append(n.as_str());
            result.append(" error(s) during the validation:\n");
            proof {
                assert(result@ =~= spec_error_header(errs.len() as int));
            }
            let mut i: usize = 0;
            while i < self.issues.len()
                invariant
                    i <= self.issues.len(),
                    self@.len() == self.issues@.len(),
                    errs == spec_errors(self@),
                    result@ == spec_error_header(errs.len() as int) + spec_bullets(
                        spec_errors(self@.take(i as int)),
                    ),
                decreases self.issues.len() - i,
            {
                proof {
                    reveal(Seq::filter);
                    assert(self@[i as int] == self.issues@[i as int]@);
                    assert(self@.take(i + 1).drop_last() =~= self@.take(i as int));
                    assert(self@.take(i + 1).last() == self@[i as int]);
                }
                if self.issues[i].severity == IssueSeverity::Error {
                    append_bullet(&mut result, &self.issues[i]);
                    proof {
                        assert(spec_errors(self@.take(i + 1)) == spec_errors(
                            self@.take(i as int),
                        ).push(self@[i as int]));
                        assert(spec_errors(self@.take(i + 1)).drop_last() =~= spec_errors(
                            self@.take(i as int),
                        ));
                        assert(spec_errors(self@.take(i + 1)).last() == self@[i as int]);
                        assert(spec_bullets(spec_errors(self@.take(i + 1)))
                            == spec_bullets(spec_errors(self@.take(i as int))) + spec_bullet(
                            self@[i as int],
                        ));
                        assert(result@ =~= spec_error_header(errs.len() as int) + spec_bullets(
                            spec_errors(self@.take(i + 1)),
                        ));
                    }
                }
                i += 1;
            }
            proof {
                assert(self@.take(self@.len() as int) =~= self@);
            }
        }
        let ghost eblock = result@;
        if wcount > 0 {
            if ecount > 0 {
                result.append("\n");
            }
            result.append("Found the following ");
            let n = u64_to_string(wcount as u64);
            result.append(n.as_str());
            result.append(" warning(s) during the validation:\n");
            let ghost base = result@;
            proof {
                assert(base =~= eblock + (if ecount > 0 {
                    "\n"@
                } else {
                    Seq::<char>::empty()
                }) + spec_warning_header(warns.len() as int));
            }
            let mut i: usize = 0;
            while i < self.issues.len()
                invariant
                    i <= self.issues.len(),
                    self@.len() == self.issues@.len(),
                    warns == spec_warnings(self@),
                    result@ == base + spec_bullets(spec_warnings(self@.take(i as int))),
                    base == eblock + (if ecount > 0 {
                        "\n"@
                    } else {
                        Seq::<char>::empty()
                    }) + spec_warning_header(warns.len() as int),
                decreases self.issues.len() - i,
            {
                proof {
                    reveal(Seq::filter);
                    assert(self@[i as int] == self.issues@[i as int]@);
                    assert(self@.take(i + 1).drop_last() =~= self@.take(i as int));
                    assert(self@.take(i + 1).last() == self@[i as int]);
                }
                if self.issues[i].severity == IssueSeverity::Warning {
                    append_bullet(&mut result, &self.issues[i]);
                    proof {
                        assert(spec_warnings(self@.take(i + 1)) == spec_warnings(
                            self@.take(i as int),
                        ).push(self@[i as int]));
                        assert(spec_warnings(self@.take(i + 1)).drop_last() =~= spec_warnings(
                            self@.take(i as int),
                        ));
                        assert(spec_warnings(self@.take(i + 1)).last() == self@[i as int]);
                        assert(spec_bullets(spec_warnings(self@.take(i + 1)))
                            == spec_bullets(spec_warnings(self@.take(i as int))) + spec_bullet(
                            self@[i as int],
                        ));
                        assert(result@ =~= base + spec_bullets(
                            spec_warnings(self@.take(i + 1)),
                        ));
                    }
                }
                i += 1;
            }
            proof {
                assert(self@.take(self@.len() as int) =~= self@);
            }
        }
        proof {
            let errors = spec_errors(self@);
            let warnings = spec_warnings(self@);
            let eblock_s: Seq<char> = if errors.len() > 0 {
                spec_error_header(errors.len() as int) + spec_bullets(errors)
            } else {
                Seq::empty()
            };
            let sep_s: Seq<char> = if errors.len() > 0 && warnings.len() > 0 {
                "\n"@
            } else {
                Seq::empty()
            };
            let wblock_s: Seq<char> = if warnings.len() > 0 {
                spec_warning_header(warnings.len() as int) + spec_bullets(warnings)
            } else {
                Seq::empty()
            };
            assert(result@ =~= eblock_s + sep_s + wblock_s);
        }
        let trimmed = trim_end(result.as_str());
        String::from_str(trimmed)
    }

    /// The findings in insertion order.
    pub fn issues(&self) -> (r: &Vec<ValidationIssue>)
        ensures
            r@.map_values(|i: ValidationIssue| i@) == self@,
    {
        &self.issues
    }
}

/// Every finding is an error or a warning: the two counts partition the
/// collection.
pub proof fn lemma_counts_partition(s: Seq<IssueV>)
    ensures
        spec_error_count(s) + spec_warning_count(s) == s.len(),
    decreases s.len(),
{
    reveal(Seq::filter);
    if s.len() > 0 {
        lemma_counts_partition(s.drop_last());
    }
}

/// Law: some finding is an error exactly when the error count is
/// positive, so `hasErrors` and `errorCount` agree.
pub proof fn lemma_has_errors_iff_count(s: Seq<IssueV>)
    ensures
        spec_has_errors(s) <==> spec_error_count(s) > 0,
    decreases s.len(),
{
    reveal(Seq::filter);
    if s.len() > 0 {
        lemma_has_errors_iff_count(s.drop_last());
        if is_error(s.last()) {
            assert(spec_has_errors(s));
        } else {
            assert(spec_has_errors(s.drop_last()) <==> spec_has_errors(s)) by {
                if spec_has_errors(s) {
                    let i = choose|i: int| 0 <= i < s.len() && is_error(#[trigger] s[i]);
                    assert(s.drop_last()[i] == s[i]);
                }
                if spec_has_errors(s.drop_last()) {
                    let i = choose|i: int|
                        0 <= i < s.drop_last().len() && is_error(#[trigger] s.drop_last()[i]);
                    assert(s[i] == s.drop_last()[i]);
                }
            }
        }
    }
}

/// The bullets of a list of findings hold each finding's bullet, as a
/// contiguous piece.
proof fn lemma_bullets_extract(es: Seq<IssueV>, j: int)
    requires
        0 <= j < es.len(),
    ensures
        exists|p: int|
            0 <= p && p + spec_bullet(es[j]).len() <= spec_bullets(es).len() && #[trigger] spec_bullets(
                es,
            ).subrange(p, p + spec_bullet(es[j]).len()) == spec_bullet(es[j]),
    decreases es.len(),
{
    let whole = spec_bullets(es);
    let bullet = spec_bullet(es[j]);
    if j == es.len() - 1 {
        let p = spec_bullets(es.drop_last()).len() as int;
        assert(whole.subrange(p, p + bullet.len()) =~= bullet);
    } else {
        lemma_bullets_extract(es.drop_last(), j);
        let p = choose|p: int|
            0 <= p && p + spec_bullet(es.drop_last()[j]).len() <= spec_bullets(
                es.drop_last(),
            ).len() && #[trigger] spec_bullets(es.drop_last()).subrange(
                p,
                p + spec_bullet(es.drop_last()[j]).len(),
            ) == spec_bullet(es.drop_last()[j]);
        assert(es.drop_last()[j] == es[j]);
        assert(whole.subrange(p, p + bullet.len()) =~= spec_bullets(es.drop_last()).subrange(
            p,
            p + bullet.len(),
        ));
    }
}

/// Every error finding appears among the filtered errors.
proof fn lemma_errors_contain(s: Seq<IssueV>, i: int)
    requires
        0 <= i < s.len(),
        is_error(s[i]),
    ensures
        exists|j: int| 0 <= j < spec_errors(s).len() && #[trigger] spec_errors(s)[j] == s[i],
    decreases s.len(),
{
    reveal(Seq::filter);
    if i == s.len() - 1 {
        assert(spec_errors(s)[spec_errors(s).len() - 1] == s[i]);
    } else {
        assert(s.drop_last()[i] == s[i]);
        lemma_errors_contain(s.drop_last(), i);
        let j = choose|j: int|
            0 <= j < spec_errors(s.drop_last()).len() && #[trigger] spec_errors(s.drop_last())[j]
                == s.drop_last()[i];
        assert(spec_errors(s)[j] == s[i]);
    }
}

/// A bullet holds its finding's message.
proof fn lemma_bullet_contains_message(i: IssueV)
    ensures
        spec_contains_seq(spec_bullet(i), i.message),
{
    let b = spec_bullet(i);
    let m = i.message;
    match i.context {
        Some(c) => {
            let p = ("  -  ["@.len() + c.len() + "] "@.len()) as int;
            assert(b.subrange(p, p + m.len()) =~= m);
        },
        None => {
            let p = "  -  "@.len() as int;
            assert(b.subrange(p, p + m.len()) =~= m);
        },
    }
}

/// The report holds the message of every error finding whose message does
/// not end in white space.
pub proof fn lemma_report_contains_error_message(s: Seq<IssueV>, i: int)
    requires
        0 <= i < s.len(),
        is_error(s[i]),
        s[i].message.len() > 0,
        !spec_is_space(s[i].message.last()),
    ensures
        spec_contains_seq(spec_report(s), s[i].message),
{
    let errors = spec_errors(s);
    let warnings = spec_warnings(s);
    let message = s[i].message;
    lemma_errors_contain(s, i);
    let j = choose|j: int| 0 <= j < errors.len() && (#[trigger] errors[j]) == s[i];
    lemma_bullets_extract(errors, j);
    let bullets = spec_bullets(errors);
    let p = choose|p: int|
        0 <= p && p + spec_bullet(errors[j]).len() <= bullets.len() && #[trigger] bullets.subrange(
            p,
            p + spec_bullet(errors[j]).len(),
        ) == spec_bullet(errors[j]);
    lemma_bullet_contains_message(errors[j]);
    lemma_contains_within(bullets, spec_bullet(errors[j]), p, message);
    let eblock = spec_error_header(errors.len() as int) + bullets;
    lemma_contains_concat_left(spec_error_header(errors.len() as int), bullets, message);
    let sep: Seq<char> = if warnings.len() > 0 {
        "\n"@
    } else {
        Seq::empty()
    };
    let wblock: Seq<char> = if warnings.len() > 0 {
        spec_warning_header(warnings.len() as int) + spec_bullets(warnings)
    } else {
        Seq::empty()
    };
    lemma_contains_concat_right(eblock, sep, message);
    lemma_contains_concat_right(eblock + sep, wblock, message);
    lemma_contains_trim_end(eblock + sep + wblock, message);
}

/// Report law: with no findings the report is the empty string; with
/// findings and no warnings among them, it is exactly the error header
/// followed by one bullet per error, trimmed at the end, with no
/// separator line and no warning block.
pub proof fn lemma_report_errors_only(s: Seq<IssueV>)
    requires
        spec_warning_count(s) == 0,
    ensures
        s.len() == 0 ==> spec_report(s) == Seq::<char>::empty(),
        s.len() > 0 ==> spec_error_count(s) == s.len(),
        s.len() > 0 ==> spec_report(s) == spec_trim_end(
            spec_error_header(s.len() as int) + spec_bullets(spec_errors(s)),
        ),
{
    lemma_counts_partition(s);
    if s.len() > 0 {
        let eblock = spec_error_header(spec_errors(s).len() as int) + spec_bullets(spec_errors(s));
        assert(eblock + Seq::<char>::empty() + Seq::<char>::empty() =~= eblock);
    }
}

} // verus!
