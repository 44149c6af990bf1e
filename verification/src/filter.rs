//! Filters: textual predicates over a candidate string.
//!
//! A filter is written `[!]operator:content`. The operator is one of `equals`,
//! `startsWith`, `endsWith`, `contains`, `true` and `regex`; a leading `!`
//! inverts the verdict. Several filters are joined with `~` and all of them
//! must match.

use crate::pattern::{compile, compiled, found, is_match};
use crate::text::{
    begins_with, cut_at_first, finishes_with, first_at, includes, lemma_first_at,
    lemma_first_at_of_parts, lemma_pieces_of_parts, lemma_pieces_of_whole, occurs_in, pieces,
    same_text, without_leading,
};
use vstd::prelude::*;

verus! {

/// The text of the error that an unknown operator name is answered with.
pub const UNKNOWN_OPERATOR: &'static str =
    "unknown filter operator; options are equals, startsWith, endsWith, contains, true, regex";

/// Why a filter expression was rejected.
#[derive(Debug)]
pub enum FilterErrorKind {
    /// The expression holds no `:`.
    MissingColon,
    /// What stands before the first `:` is not an operator.
    UnknownOperator,
    /// The content of a `regex` filter does not compile; the text is the
    /// compiler's diagnostic.
    InvalidRegex(String),
}

/// A rejected filter expression: the offending text, or for an unknown
/// operator the list of the known ones, and the reason.
#[derive(Debug)]
pub struct FilterError(pub String, pub FilterErrorKind);

/// What a filter tests.
#[derive(Debug)]
pub enum FilterOperator {
    Equals(String),
    StartsWith(String),
    EndsWith(String),
    Contains(String),
    True,
    Regex(regex::Regex),
}

/// One filter: an operator and whether its verdict is inverted.
#[derive(Debug)]
pub struct Filter {
    pub invert: bool,
    pub operator: FilterOperator,
}

/// The mathematical content of a [`FilterOperator`].
pub enum Predicate {
    Equals(Seq<char>),
    StartsWith(Seq<char>),
    EndsWith(Seq<char>),
    Contains(Seq<char>),
    True,
    Regex(regex::Regex),
}

/// The mathematical content of a [`Filter`].
pub struct FilterModel {
    pub invert: bool,
    pub predicate: Predicate,
}

/// The mathematical content of a [`FilterErrorKind`].
pub enum Fault {
    MissingColon,
    UnknownOperator,
    InvalidRegex(Seq<char>),
}

/// The mathematical content of a [`FilterError`].
pub struct Rejection {
    pub text: Seq<char>,
    pub fault: Fault,
}

impl Predicate {
    /// Whether the predicate holds of a candidate, before any inversion.
    pub open spec fn holds(self, candidate: Seq<char>) -> bool {
        match self {
            Predicate::Equals(wanted) => candidate == wanted,
            Predicate::StartsWith(prefix) => prefix.is_prefix_of(candidate),
            Predicate::EndsWith(suffix) => suffix.is_suffix_of(candidate),
            Predicate::Contains(needle) => occurs_in(needle, candidate),
            Predicate::True => true,
            Predicate::Regex(re) => found(re, candidate),
        }
    }
}

impl FilterModel {
    /// The filter's verdict on a candidate: the predicate's, negated where
    /// the filter inverts.
    pub open spec fn accepts(self, candidate: Seq<char>) -> bool {
        self.invert != self.predicate.holds(candidate)
    }
}

impl View for FilterOperator {
    type V = Predicate;

    open spec fn view(&self) -> Predicate {
        match self {
            FilterOperator::Equals(wanted) => Predicate::Equals(wanted@),
            FilterOperator::StartsWith(prefix) => Predicate::StartsWith(prefix@),
            FilterOperator::EndsWith(suffix) => Predicate::EndsWith(suffix@),
            FilterOperator::Contains(needle) => Predicate::Contains(needle@),
            FilterOperator::True => Predicate::True,
            FilterOperator::Regex(re) => Predicate::Regex(*re),
        }
    }
}

impl View for Filter {
    type V = FilterModel;

    open spec fn view(&self) -> FilterModel {
        FilterModel { invert: self.invert, predicate: self.operator@ }
    }
}

impl View for FilterErrorKind {
    type V = Fault;

    open spec fn view(&self) -> Fault {
        match self {
            FilterErrorKind::MissingColon => Fault::MissingColon,
            FilterErrorKind::UnknownOperator => Fault::UnknownOperator,
            FilterErrorKind::InvalidRegex(diagnostic) => Fault::InvalidRegex(diagnostic@),
        }
    }
}

impl View for FilterError {
    type V = Rejection;

    open spec fn view(&self) -> Rejection {
        Rejection { text: self.0@, fault: self.1@ }
    }
}

impl Fault {
    /// The name of the kind of fault.
    pub open spec fn label(self) -> Seq<char> {
        match self {
            Fault::MissingColon => "MissingColon"@,
            Fault::UnknownOperator => "UnknownOperator"@,
            Fault::InvalidRegex(_) => "InvalidRegex"@,
        }
    }
}

impl Rejection {
    /// The rejection as one line of text: the kind, then the error's text,
    /// then, for a pattern that does not compile, the diagnostic, each
    /// followed by `: ` where something follows.
    pub open spec fn message(self) -> Seq<char> {
        match self.fault {
            Fault::InvalidRegex(diagnostic) => self.fault.label() + ": "@ + self.text + ": "@
                + diagnostic,
            _ => self.fault.label() + ": "@ + self.text,
        }
    }
}

impl FilterErrorKind {
    /// The name of the kind.
    pub fn label(&self) -> (name: &'static str)
        ensures
            name@ == self@.label(),
    {
        match self {
            FilterErrorKind::MissingColon => "MissingColon",
            FilterErrorKind::UnknownOperator => "UnknownOperator",
            FilterErrorKind::InvalidRegex(_) => "InvalidRegex",
        }
    }
}

impl FilterError {
    /// The error as one line of text that keeps all of it: the kind, the
    /// text and, for a pattern that does not compile, the diagnostic.
    pub fn message(&self) -> (line: String)
        ensures
            line@ == self@.message(),
    {
        let line = self.1.label().to_owned().concat(": ").concat(self.0.as_str());
        match &self.1 {
            FilterErrorKind::InvalidRegex(diagnostic) => line.concat(": ").concat(
                diagnostic.as_str(),
            ),
            _ => line,
        }
    }
}

/// The predicate that an operator name and a content stand for, or why they
/// stand for none.
pub open spec fn predicate_of(name: Seq<char>, content: Seq<char>) -> Result<Predicate, Rejection> {
    if name == "equals"@ {
        Ok(Predicate::Equals(content))
    } else if name == "startsWith"@ {
        Ok(Predicate::StartsWith(content))
    } else if name == "endsWith"@ {
        Ok(Predicate::EndsWith(content))
    } else if name == "contains"@ {
        Ok(Predicate::Contains(content))
    } else if name == "true"@ {
        Ok(Predicate::True)
    } else if name == "regex"@ {
        match compiled(content) {
            Ok(re) => Ok(Predicate::Regex(re)),
            Err(diagnostic) => Err(
                Rejection { text: content, fault: Fault::InvalidRegex(diagnostic) },
            ),
        }
    } else {
        Err(Rejection { text: UNKNOWN_OPERATOR@, fault: Fault::UnknownOperator })
    }
}

/// The filter that an expression stands for. A leading `!` inverts; what
/// follows is split at its first `:` into the operator's name and the content.
pub open spec fn filter_of(text: Seq<char>) -> Result<FilterModel, Rejection> {
    let invert = text.len() > 0 && text[0] == '!';
    let body = if invert {
        text.skip(1)
    } else {
        text
    };
    let colon = first_at(body, ':');
    if 0 <= colon < body.len() {
        match predicate_of(body.take(colon), body.skip(colon + 1)) {
            Ok(predicate) => Ok(FilterModel { invert, predicate }),
            Err(rejection) => Err(rejection),
        }
    } else {
        Err(Rejection { text: body, fault: Fault::MissingColon })
    }
}

/// An operator's parse result by its content.
pub open spec fn operator_outcome(outcome: Result<FilterOperator, FilterError>) -> Result<
    Predicate,
    Rejection,
> {
    match outcome {
        Ok(operator) => Ok(operator@),
        Err(error) => Err(error@),
    }
}

/// A filter's parse result by its content.
pub open spec fn filter_outcome(outcome: Result<Filter, FilterError>) -> Result<
    FilterModel,
    Rejection,
> {
    match outcome {
        Ok(filter) => Ok(filter@),
        Err(error) => Err(error@),
    }
}

impl FilterOperator {
    /// Reads an operator from its name and takes `content` as its argument.
    /// A `regex` operator compiles its content at once.
    pub fn parse(s: &str, content: String) -> (outcome: Result<FilterOperator, FilterError>)
        ensures
            operator_outcome(outcome) == predicate_of(s@, content@),
    {
        if same_text(s, "equals") {
            Ok(FilterOperator::Equals(content))
        } else if same_text(s, "startsWith") {
            Ok(FilterOperator::StartsWith(content))
        } else if same_text(s, "endsWith") {
            Ok(FilterOperator::EndsWith(content))
        } else if same_text(s, "contains") {
            Ok(FilterOperator::Contains(content))
        } else if same_text(s, "true") {
            Ok(FilterOperator::True)
        } else if same_text(s, "regex") {
            match compile(content.as_str()) {
                Ok(re) => Ok(FilterOperator::Regex(re)),
                Err(diagnostic) => Err(
                    FilterError(content, FilterErrorKind::InvalidRegex(diagnostic)),
                ),
            }
        } else {
            Err(FilterError(UNKNOWN_OPERATOR.to_owned(), FilterErrorKind::UnknownOperator))
        }
    }

    /// Whether the operator holds of `s`.
    pub fn matches(&self, s: &str) -> (hit: bool)
        ensures
            hit == self@.holds(s@),
    {
        match self {
            FilterOperator::Equals(pat) => same_text(s, pat.as_str()),
            FilterOperator::StartsWith(pat) => begins_with(s, pat.as_str()),
            FilterOperator::EndsWith(pat) => finishes_with(s, pat.as_str()),
            FilterOperator::Contains(pat) => includes(s, pat.as_str()),
            FilterOperator::True => true,
            FilterOperator::Regex(pat) => is_match(pat, s),
        }
    }
}

/// The filter that accepts everything: `true`, not inverted.
pub fn true_filter() -> (filter: Filter)
    ensures
        filter@ == (FilterModel { invert: false, predicate: Predicate::True }),
        forall|candidate: Seq<char>| filter@.accepts(candidate),
{
    Filter { invert: false, operator: FilterOperator::True }
}

impl Filter {
    /// Reads one filter expression.
    pub fn parse(s: &str) -> (outcome: Result<Filter, FilterError>)
        ensures
            filter_outcome(outcome) == filter_of(s@),
    {
        let (invert, body) = match without_leading(s, '!') {
            Some(rest) => (true, rest),
            None => (false, s),
        };
        match cut_at_first(body, ':') {
            None => {
                proof {
                    lemma_first_at(body@, ':');
                }
                Err(FilterError(body.to_owned(), FilterErrorKind::MissingColon))
            },
            Some((operator, text)) => {
                proof {
                    lemma_first_at_of_parts(operator@, ':', text@);
                }
                match FilterOperator::parse(operator, text.to_owned()) {
                    Ok(operator) => Ok(Filter { invert, operator }),
                    Err(error) => Err(error),
                }
            },
        }
    }

    /// The filter's verdict on `s`: the operator's, negated where the filter
    /// inverts.
    pub fn matches(&self, s: &str) -> (hit: bool)
        ensures
            hit == self@.accepts(s@),
    {
        let result = self.operator.matches(s);
        if self.invert {
            !result
        } else {
            result
        }
    }
}

/// An ordered list of filters, all of which must match.
#[derive(Debug)]
pub struct FilterList {
    pub filters: Vec<Filter>,
}

impl View for FilterList {
    type V = Seq<FilterModel>;

    open spec fn view(&self) -> Seq<FilterModel> {
        self.filters@.map_values(|filter: Filter| filter@)
    }
}

/// Every filter of the list accepts the candidate. The empty list accepts
/// everything.
pub open spec fn all_accept(filters: Seq<FilterModel>, candidate: Seq<char>) -> bool {
    forall|i: int| 0 <= i < filters.len() ==> (#[trigger] filters[i]).accepts(candidate)
}

/// The filters that a sequence of expressions stands for, or the rejection
/// of the first one that stands for none.
pub open spec fn each_of(texts: Seq<Seq<char>>) -> Result<Seq<FilterModel>, Rejection>
    decreases texts.len(),
{
    if texts.len() == 0 {
        Ok(Seq::empty())
    } else {
        match filter_of(texts[0]) {
            Err(rejection) => Err(rejection),
            Ok(filter) => match each_of(texts.skip(1)) {
                Err(rejection) => Err(rejection),
                Ok(rest) => Ok(seq![filter] + rest),
            },
        }
    }
}

/// The filter list that a text stands for: none for the empty text, else one
/// filter for each part between the `~`s.
pub open spec fn filters_of(text: Seq<char>) -> Result<Seq<FilterModel>, Rejection> {
    if text.len() == 0 {
        Ok(Seq::empty())
    } else {
        each_of(pieces(text, '~'))
    }
}

/// Filters already read, followed by what the rest of the text gives.
pub open spec fn followed_by(
    done: Seq<FilterModel>,
    rest: Result<Seq<FilterModel>, Rejection>,
) -> Result<Seq<FilterModel>, Rejection> {
    match rest {
        Ok(more) => Ok(done + more),
        Err(rejection) => Err(rejection),
    }
}

/// Reading a sequence of expressions goes first to last: the outcome for
/// a first one followed by others is the first one's rejection, else that of
/// the others, else all the filters.
pub proof fn lemma_each_of_step(first: Seq<char>, others: Seq<Seq<char>>)
    ensures
        each_of(seq![first] + others) == match filter_of(first) {
            Err(rejection) => Err::<Seq<FilterModel>, Rejection>(rejection),
            Ok(filter) => followed_by(seq![filter], each_of(others)),
        },
{
    let all = seq![first] + others;
    assert(all[0] == first);
    assert(all.skip(1) =~= others);
}

/// A list's parse result by its content.
pub open spec fn list_outcome(outcome: Result<FilterList, FilterError>) -> Result<
    Seq<FilterModel>,
    Rejection,
> {
    match outcome {
        Ok(list) => Ok(list@),
        Err(error) => Err(error@),
    }
}

impl FilterList {
    /// The list without filters, which accepts everything.
    pub fn new() -> (list: FilterList)
        ensures
            list@ == Seq::<FilterModel>::empty(),
    {
        let filters: Vec<Filter> = Vec::new();
        assert(filters@.map_values(|filter: Filter| filter@) =~= Seq::<FilterModel>::empty());
        FilterList { filters }
    }

    /// Reads filters joined by `~`. The empty text is the empty list. The
    /// first expression that is rejected ends the reading with its error.
    pub fn parse(text: &str) -> (outcome: Result<FilterList, FilterError>)
        ensures
            list_outcome(outcome) == filters_of(text@),
    {
        let mut filters: Vec<Filter> = Vec::new();
        if text.is_empty() {
            assert(filters@.map_values(|filter: Filter| filter@) =~= Seq::<FilterModel>::empty());
            return Ok(FilterList { filters });
        }
        let mut rest: &str = text;
        loop
            invariant
                filters_of(text@) == followed_by(
                    filters@.map_values(|filter: Filter| filter@),
                    each_of(pieces(rest@, '~')),
                ),
            decreases rest@.len(),
        {
            let ghost done = filters@.map_values(|filter: Filter| filter@);
            match cut_at_first(rest, '~') {
                None => {
                    proof {
                        lemma_pieces_of_whole(rest@, '~');
                        assert(seq![rest@] =~= seq![rest@] + Seq::<Seq<char>>::empty());
                        lemma_each_of_step(rest@, Seq::empty());
                    }
                    match Filter::parse(rest) {
                        Err(error) => {
                            return Err(error);
                        },
                        Ok(filter) => {
                            filters.push(filter);
                            proof {
                                let last = seq![filter@] + Seq::<FilterModel>::empty();
                                assert(each_of(seq![rest@]) == Ok::<_, Rejection>(last));
                                assert(filters@.map_values(|filter: Filter| filter@) =~= done
                                    + last);
                            }
                            return Ok(FilterList { filters });
                        },
                    }
                },
                Some((head, tail)) => {
                    proof {
                        lemma_pieces_of_parts(head@, '~', tail@);
                        lemma_each_of_step(head@, pieces(tail@, '~'));
                    }
                    match Filter::parse(head) {
                        Err(error) => {
                            return Err(error);
                        },
                        Ok(filter) => {
                            filters.push(filter);
                            proof {
                                let now = filters@.map_values(|filter: Filter| filter@);
                                assert(now =~= done + seq![filter@]);
                                match each_of(pieces(tail@, '~')) {
                                    Ok(more) => {
                                        assert(done + (seq![filter@] + more) =~= now + more);
                                    },
                                    Err(_) => {},
                                }
                            }
                            rest = tail;
                        },
                    }
                },
            }
        }
    }

    /// Whether every filter of the list matches `candidate`.
    pub fn accepts(&self, candidate: &str) -> (verdict: bool)
        ensures
            verdict == all_accept(self@, candidate@),
    {
        let mut i: usize = 0;
        while i < self.filters.len()
            invariant
                i <= self.filters.len(),
                forall|j: int| 0 <= j < i ==> (#[trigger] self@[j]).accepts(candidate@),
            decreases self.filters.len() - i,
        {
            if !self.filters[i].matches(candidate) {
                assert(!self@[i as int].accepts(candidate@));
                return false;
            }
            i += 1;
        }
        true
    }
}

/// An expression made of a name, a `:` and a content, where the name is not
/// empty, holds no `:` and does not start with `!`, is not inverted and
/// stands for what the name and the content stand for.
pub proof fn lemma_plain_expression(name: Seq<char>, content: Seq<char>)
    requires
        plain_name(name),
    ensures
        filter_of(name + seq![':'] + content) == match predicate_of(name, content) {
            Ok(predicate) => Ok::<FilterModel, Rejection>(
                FilterModel { invert: false, predicate },
            ),
            Err(rejection) => Err(rejection),
        },
{
    let text = name + seq![':'] + content;
    assert(text[0] == name[0]);
    lemma_first_at_of_parts(name, ':', content);
}

/// The names of the operators are pairwise different, and none holds a `:`
/// or starts with `!`.
proof fn lemma_operator_names()
    ensures
        "equals"@ != "startsWith"@,
        "equals"@ != "endsWith"@,
        "equals"@ != "contains"@,
        "equals"@ != "true"@,
        "equals"@ != "regex"@,
        "startsWith"@ != "endsWith"@,
        "startsWith"@ != "contains"@,
        "startsWith"@ != "true"@,
        "startsWith"@ != "regex"@,
        "endsWith"@ != "contains"@,
        "endsWith"@ != "true"@,
        "endsWith"@ != "regex"@,
        "contains"@ != "true"@,
        "contains"@ != "regex"@,
        "true"@ != "regex"@,
        plain_name("equals"@),
        plain_name("startsWith"@),
        plain_name("endsWith"@),
        plain_name("contains"@),
        plain_name("true"@),
        plain_name("regex"@),
{
    reveal_strlit("equals");
    reveal_strlit("startsWith");
    reveal_strlit("endsWith");
    reveal_strlit("contains");
    reveal_strlit("true");
    reveal_strlit("regex");
    assert("equals"@.len() == 6 && "equals"@[0] == 'e');
    assert("startsWith"@.len() == 10 && "startsWith"@[0] == 's');
    assert("endsWith"@.len() == 8 && "endsWith"@[0] == 'e');
    assert("contains"@.len() == 8 && "contains"@[0] == 'c');
    assert("true"@.len() == 4 && "true"@[0] == 't');
    assert("regex"@.len() == 5 && "regex"@[0] == 'r');
}

/// A name that can stand before the `:` of an expression that is not
/// inverted: it is not empty, holds no `:` and does not start with `!`.
pub open spec fn plain_name(name: Seq<char>) -> bool {
    &&& name.len() > 0
    &&& !name.contains(':')
    &&& name[0] != '!'
}

/// What each operator means. For every content `x` and candidate `c`:
/// `equals:x` is a filter that accepts `c` exactly when `c` is `x`;
/// `startsWith:x`, `endsWith:x` and `contains:x` are filters that accept `c`
/// exactly when `x` is a prefix, a suffix, a contiguous part of `c`; and
/// where `x` compiles, `regex:x` is a filter that accepts `c` exactly when
/// the compiled pattern is found in `c`.
pub proof fn law_operator_meaning(x: Seq<char>, c: Seq<char>)
    ensures
        filter_of("equals"@ + seq![':'] + x) matches Ok(f) && (f.accepts(c) <==> c == x),
        filter_of("startsWith"@ + seq![':'] + x) matches Ok(f) && (f.accepts(c)
            <==> x.is_prefix_of(c)),
        filter_of("endsWith"@ + seq![':'] + x) matches Ok(f) && (f.accepts(c)
            <==> x.is_suffix_of(c)),
        filter_of("contains"@ + seq![':'] + x) matches Ok(f) && (f.accepts(c) <==> occurs_in(
            x,
            c,
        )),
        compiled(x) matches Ok(re) ==> filter_of("regex"@ + seq![':'] + x) matches Ok(f) && (
        f.accepts(c) <==> found(re, c)),
{
    lemma_operator_names();
    lemma_plain_expression("equals"@, x);
    lemma_plain_expression("startsWith"@, x);
    lemma_plain_expression("endsWith"@, x);
    lemma_plain_expression("contains"@, x);
    lemma_plain_expression("regex"@, x);
}

/// Inversion negates. Where `plain` is a filter that is not itself inverted,
/// `!plain` is a filter too, and on every candidate its verdict is the
/// opposite of that of `plain`.
pub proof fn law_inversion_negates(plain: Seq<char>, c: Seq<char>)
    requires
        filter_of(plain) matches Ok(f) && !f.invert,
    ensures
        filter_of(seq!['!'] + plain) matches Ok(g) && g.invert && g.accepts(c) == !filter_of(
            plain,
        )->Ok_0.accepts(c),
{
    let inverted = seq!['!'] + plain;
    assert(inverted[0] == '!');
    assert(inverted.skip(1) =~= plain);
}

/// The operator `true` ignores its content: `true:x` accepts every
/// candidate, and `!true:x` accepts none.
pub proof fn law_true_ignores_content(x: Seq<char>, c: Seq<char>)
    ensures
        filter_of("true"@ + seq![':'] + x) matches Ok(f) && f.accepts(c),
        filter_of(seq!['!'] + ("true"@ + seq![':'] + x)) matches Ok(g) && !g.accepts(c),
{
    lemma_operator_names();
    lemma_plain_expression("true"@, x);
    law_inversion_negates("true"@ + seq![':'] + x, c);
}

/// A name that is none of the six operators is rejected as unknown, whatever
/// the content and whether or not the expression is inverted.
pub proof fn law_unknown_operator(name: Seq<char>, content: Seq<char>)
    requires
        plain_name(name),
        name != "equals"@,
        name != "startsWith"@,
        name != "endsWith"@,
        name != "contains"@,
        name != "true"@,
        name != "regex"@,
    ensures
        filter_of(name + seq![':'] + content) matches Err(r) && r.fault == Fault::UnknownOperator,
        filter_of(seq!['!'] + (name + seq![':'] + content)) matches Err(r) && r.fault
            == Fault::UnknownOperator,
{
    lemma_plain_expression(name, content);
    let inverted = seq!['!'] + (name + seq![':'] + content);
    assert(inverted[0] == '!');
    assert(inverted.skip(1) =~= name + seq![':'] + content);
}

/// A `regex` filter whose content does not compile is rejected with the
/// content and the compiler's diagnostic.
pub proof fn law_invalid_regex_rejected(x: Seq<char>)
    requires
        compiled(x) is Err,
    ensures
        filter_of("regex"@ + seq![':'] + x) == Err::<FilterModel, Rejection>(
            Rejection { text: x, fault: Fault::InvalidRegex(compiled(x)->Err_0) },
        ),
{
    lemma_operator_names();
    lemma_plain_expression("regex"@, x);
}

/// An expression without a `:` is rejected with what stands behind its
/// inversion mark, if it has one.
pub proof fn law_missing_colon_rejected(text: Seq<char>)
    requires
        !text.contains(':'),
    ensures
        filter_of(text) == Err::<FilterModel, Rejection>(
            Rejection {
                text: if text.len() > 0 && text[0] == '!' {
                    text.skip(1)
                } else {
                    text
                },
                fault: Fault::MissingColon,
            },
        ),
{
    let body = if text.len() > 0 && text[0] == '!' {
        text.skip(1)
    } else {
        text
    };
    assert forall|i: int| 0 <= i < body.len() implies body[i] != ':' by {
        if text.len() > 0 && text[0] == '!' {
            assert(text.contains(text[i + 1]));
        } else {
            assert(text.contains(text[i]));
        }
    }
    lemma_first_at(body, ':');
}

/// A text without `~` that is not empty is a list of one filter.
pub proof fn law_single_filter_list(text: Seq<char>)
    requires
        text.len() > 0,
        !text.contains('~'),
    ensures
        filters_of(text) == match filter_of(text) {
            Err(rejection) => Err::<Seq<FilterModel>, Rejection>(rejection),
            Ok(filter) => Ok(seq![filter]),
        },
{
    lemma_pieces_of_whole(text, '~');
    assert(seq![text] =~= seq![text] + Seq::<Seq<char>>::empty());
    lemma_each_of_step(text, Seq::empty());
    if let Ok(filter) = filter_of(text) {
        assert(seq![filter] + Seq::<FilterModel>::empty() =~= seq![filter]);
    }
}

/// A `~` joins filters: a text made of a part without `~`, a `~` and a rest
/// stands for the filter of the part followed by the filters of the parts
/// of the rest, and is rejected where the part is.
pub proof fn law_joined_filter_list(first: Seq<char>, rest: Seq<char>)
    requires
        !first.contains('~'),
    ensures
        filters_of(first + seq!['~'] + rest) == match filter_of(first) {
            Err(rejection) => Err::<Seq<FilterModel>, Rejection>(rejection),
            Ok(filter) => followed_by(seq![filter], each_of(pieces(rest, '~'))),
        },
{
    lemma_pieces_of_parts(first, '~', rest);
    lemma_each_of_step(first, pieces(rest, '~'));
}

/// Reading a list fails fast: where the expressions before a rejected one
/// are all filters, the list is rejected as that one is, whatever follows.
pub proof fn law_first_rejection_wins(
    good: Seq<Seq<char>>,
    bad: Seq<char>,
    others: Seq<Seq<char>>,
)
    requires
        forall|i: int| 0 <= i < good.len() ==> filter_of(#[trigger] good[i]) is Ok,
        filter_of(bad) is Err,
    ensures
        each_of(good + seq![bad] + others) == Err::<Seq<FilterModel>, Rejection>(
            filter_of(bad)->Err_0,
        ),
    decreases good.len(),
{
    if good.len() == 0 {
        assert(good + seq![bad] + others =~= seq![bad] + others);
        lemma_each_of_step(bad, others);
    } else {
        let later = good.skip(1);
        assert forall|i: int| 0 <= i < later.len() implies filter_of(#[trigger] later[i]) is Ok by {
            assert(later[i] == good[i + 1]);
        }
        law_first_rejection_wins(later, bad, others);
        assert(good + seq![bad] + others =~= seq![good[0]] + (later + seq![bad] + others));
        lemma_each_of_step(good[0], later + seq![bad] + others);
    }
}

/// The empty filter list accepts every candidate, and it is what the empty
/// text stands for.
pub proof fn law_empty_list_accepts(c: Seq<char>)
    ensures
        all_accept(Seq::<FilterModel>::empty(), c),
        filters_of(Seq::<char>::empty()) == Ok::<Seq<FilterModel>, Rejection>(Seq::empty()),
{
}

/// A list accepts a candidate exactly when each of its filters does: adding
/// a filter to a list keeps the verdict only where the new filter accepts.
pub proof fn law_list_is_conjunction(filters: Seq<FilterModel>, extra: FilterModel, c: Seq<char>)
    ensures
        all_accept(filters.push(extra), c) <==> all_accept(filters, c) && extra.accepts(c),
{
    let longer = filters.push(extra);
    if all_accept(longer, c) {
        assert(longer[filters.len() as int] == extra);
        assert forall|i: int| 0 <= i < filters.len() implies (#[trigger] filters[i]).accepts(
            c,
        ) by {
            assert(longer[i] == filters[i]);
        }
    }
    if all_accept(filters, c) && extra.accepts(c) {
        assert forall|i: int| 0 <= i < longer.len() implies (#[trigger] longer[i]).accepts(c) by {
            if i < filters.len() {
                assert(longer[i] == filters[i]);
            }
        }
    }
}

} // verus!
