//! Predicates of a `where` clause: their grammar, their evaluation on a row,
//! and the extraction of a mandatory parameter.
use vstd::prelude::*;
use vstd::string::*;
use crate::rows::HasLookup;
use crate::text::{
    chars_of, contains_text, is_digit, is_substring, parse_u32, parse_u32_spec, substring,
};

verus! {

#[derive(Clone, Copy, Debug, PartialEq, Eq, Structural)]
pub enum FilterOp {
    Eq,
    Leq,
    Geq,
    Like,
}

pub open spec fn op_name(op: FilterOp) -> Seq<char> {
    match op {
        FilterOp::Eq => "EQ"@,
        FilterOp::Leq => "LEQ"@,
        FilterOp::Geq => "GEQ"@,
        FilterOp::Like => "LIKE"@,
    }
}

impl FilterOp {
    /// The operator's name in listings.
    pub fn name(&self) -> (r: String)
        ensures
            r@ == op_name(*self),
    {
        match self {
            FilterOp::Eq => String::from_str("EQ"),
            FilterOp::Leq => String::from_str("LEQ"),
            FilterOp::Geq => String::from_str("GEQ"),
            FilterOp::Like => String::from_str("LIKE"),
        }
    }
}

/// One `(subject, operator, target)` triple; the target is kept as text, with
/// whether it was written in quotes.
pub struct FilterItem {
    pub subject: String,
    pub op: FilterOp,
    pub target: String,
    pub quoted: bool,
}

impl View for FilterItem {
    type V = (Seq<char>, FilterOp, Seq<char>, bool);

    open spec fn view(&self) -> (Seq<char>, FilterOp, Seq<char>, bool) {
        (self.subject@, self.op, self.target@, self.quoted)
    }
}

impl FilterItem {
    /// A predicate whose target was written bare (not in quotes).
    pub fn new(subject: String, op: FilterOp, target: String) -> (r: FilterItem)
        ensures
            r@ == (subject@, op, target@, false),
    {
        FilterItem { subject, op, target, quoted: false }
    }

    /// A predicate whose target was written in quotes.
    pub fn new_quoted(subject: String, op: FilterOp, target: String) -> (r: FilterItem)
        ensures
            r@ == (subject@, op, target@, true),
    {
        FilterItem { subject, op, target, quoted: true }
    }

    /// The predicate as `subject OP target`.
    pub fn describe(&self) -> (r: String)
        ensures
            r@ == self.subject@ + " "@ + op_name(self.op) + " "@ + self.target@,
    {
        let mut r = self.subject.clone();
        r.append(" ");
        r.append(self.op.name().as_str());
        r.append(" ");
        r.append(self.target.as_str());
        r
    }

    fn duplicate(&self) -> (r: FilterItem)
        ensures
            r@ == self@,
    {
        FilterItem {
            subject: self.subject.clone(),
            op: self.op,
            target: self.target.clone(),
            quoted: self.quoted,
        }
    }
}

/// A conjunction of predicates, kept in the order they were written.
pub struct FilterItems {
    pub filters: Vec<FilterItem>,
}

pub open spec fn item_views(v: Seq<FilterItem>) -> Seq<(Seq<char>, FilterOp, Seq<char>, bool)> {
    v.map_values(|f: FilterItem| f@)
}

impl View for FilterItems {
    type V = Seq<(Seq<char>, FilterOp, Seq<char>, bool)>;

    open spec fn view(&self) -> Seq<(Seq<char>, FilterOp, Seq<char>, bool)> {
        item_views(self.filters@)
    }
}

/// Whether `row` satisfies the predicate `p`. A quoted `=` target is compared
/// with the textual lookup. Otherwise a target that reads as a number is compared
/// with the numeric lookup; failing that, `=` compares texts and `<=`, `>=` fail. `like` always tests that the target occurs in the textual lookup.
pub open spec fn holds<T: HasLookup>(row: &T, p: (Seq<char>, FilterOp, Seq<char>, bool)) -> bool {
    let (subject, op, target, quoted) = p;
    match op {
        FilterOp::Eq => if quoted {
            row.str_attr(subject) == target
        } else {
            match parse_u32_spec(target) {
                Some(n) => row.num_attr(subject) == n,
                None => row.str_attr(subject) == target,
            }
        },
        FilterOp::Leq => match parse_u32_spec(target) {
            Some(n) => row.num_attr(subject) <= n,
            None => false,
        },
        FilterOp::Geq => match parse_u32_spec(target) {
            Some(n) => row.num_attr(subject) >= n,
            None => false,
        },
        FilterOp::Like => is_substring(target, row.str_attr(subject)),
    }
}

/// Whether `row` satisfies every predicate of `ps`.
pub open spec fn satisfies_all<T: HasLookup>(row: &T, ps: Seq<(Seq<char>, FilterOp, Seq<char>, bool)>) -> bool {
    forall|i: int| 0 <= i < ps.len() ==> holds(row, #[trigger] ps[i])
}

/// `ps` with every predicate on `field` taken out, the others in their order.
pub open spec fn without(ps: Seq<(Seq<char>, FilterOp, Seq<char>, bool)>, field: Seq<char>) -> Seq<
    (Seq<char>, FilterOp, Seq<char>, bool),
>
    decreases ps.len(),
{
    if ps.len() == 0 {
        ps
    } else {
        let r = without(ps.drop_last(), field);
        if ps.last().0 == field {
            r
        } else {
            r.push(ps.last())
        }
    }
}

/// The target of the first predicate on `field`, if any.
pub open spec fn first_target(ps: Seq<(Seq<char>, FilterOp, Seq<char>, bool)>, field: Seq<char>) -> Option<
    Seq<char>,
>
    decreases ps.len(),
{
    if ps.len() == 0 {
        None
    } else if ps[0].0 == field {
        Some(ps[0].2)
    } else {
        first_target(ps.drop_first(), field)
    }
}

// The grammar of a `where` clause, read from position `i` of the text `s`:
//   clause     := predicate (',' predicate)*
//   predicate  := ' '* identifier ' '* operator ' '* target ' '*
//   identifier := (letter | '_') (letter | digit | '_')*
//   operator   := '=' | '<=' | '>=' | 'like'
//   target     := '"' (any but '"')* '"' | digit*
pub open spec fn is_ident_start(c: char) -> bool {
    ('a' <= c <= 'z') || ('A' <= c <= 'Z') || c == '_'
}

pub open spec fn is_ident_char(c: char) -> bool {
    is_ident_start(c) || is_digit(c)
}

pub open spec fn skip_spaces(s: Seq<char>, i: int) -> int
    decreases s.len() - i,
{
    if 0 <= i < s.len() && s[i] == ' ' {
        skip_spaces(s, i + 1)
    } else {
        i
    }
}

pub open spec fn ident_end(s: Seq<char>, i: int) -> int
    decreases s.len() - i,
{
    if 0 <= i < s.len() && is_ident_char(s[i]) {
        ident_end(s, i + 1)
    } else {
        i
    }
}

pub open spec fn digits_end(s: Seq<char>, i: int) -> int
    decreases s.len() - i,
{
    if 0 <= i < s.len() && is_digit(s[i]) {
        digits_end(s, i + 1)
    } else {
        i
    }
}

/// The position of the first `"` at or after `i`, or the end of the text.
pub open spec fn quote_end(s: Seq<char>, i: int) -> int
    decreases s.len() - i,
{
    if 0 <= i < s.len() && s[i] != '"' {
        quote_end(s, i + 1)
    } else {
        i
    }
}

/// The identifier starting at `i`, as the position just past it.
pub open spec fn ident_at(s: Seq<char>, i: int) -> Option<int> {
    if 0 <= i < s.len() && is_ident_start(s[i]) {
        Some(ident_end(s, i + 1))
    } else {
        None
    }
}

pub open spec fn op_at(s: Seq<char>, i: int) -> Option<(FilterOp, int)> {
    if 0 <= i < s.len() && s[i] == '=' {
        Some((FilterOp::Eq, i + 1))
    } else if 0 <= i && i + 1 < s.len() && s[i] == '<' && s[i + 1] == '=' {
        Some((FilterOp::Leq, i + 2))
    } else if 0 <= i && i + 1 < s.len() && s[i] == '>' && s[i + 1] == '=' {
        Some((FilterOp::Geq, i + 2))
    } else if 0 <= i && i + 3 < s.len() && s[i] == 'l' && s[i + 1] == 'i' && s[i + 2] == 'k'
        && s[i + 3] == 'e' {
        Some((FilterOp::Like, i + 4))
    } else {
        None
    }
}

/// The target starting at `i` (quotes taken off), whether it was quoted, and the
/// position just past it: a closed quoted string, else the run of digits there
/// (possibly empty).
pub open spec fn target_at(s: Seq<char>, i: int) -> Option<(Seq<char>, bool, int)> {
    if 0 <= i < s.len() && s[i] == '"' && quote_end(s, i + 1) < s.len() {
        let j = quote_end(s, i + 1);
        Some((s.subrange(i + 1, j), true, j + 1))
    } else if 0 <= i <= s.len() {
        let j = digits_end(s, i);
        Some((s.subrange(i, j), false, j))
    } else {
        None
    }
}

pub open spec fn predicate_at(s: Seq<char>, i: int) -> Option<
    ((Seq<char>, FilterOp, Seq<char>, bool), int),
> {
    let pos0 = skip_spaces(s, i);
    match ident_at(s, pos0) {
        None => None,
        Some(pos1) => match op_at(s, skip_spaces(s, pos1)) {
            None => None,
            Some((op, pos3)) => match target_at(s, skip_spaces(s, pos3)) {
                None => None,
                Some((t, q, pos5)) => Some(
                    ((s.subrange(pos0, pos1), op, t, q), skip_spaces(s, pos5)),
                ),
            },
        },
    }
}

/// The predicates of the clause that runs from `i` to the end of `s`, if it is one.
pub open spec fn clause_from(s: Seq<char>, i: int) -> Option<Seq<(Seq<char>, FilterOp, Seq<char>, bool)>>
    decreases s.len() - i,
{
    match predicate_at(s, i) {
        None => None,
        Some((p, j)) => if j >= s.len() {
            Some(seq![p])
        } else if i <= j && s[j] == ',' {
            match clause_from(s, j + 1) {
                None => None,
                Some(rest) => Some(seq![p] + rest),
            }
        } else {
            None
        },
    }
}

/// The predicate set of a `where` clause: empty when the text is not a clause.
pub open spec fn parse_filter_spec(s: Seq<char>) -> Seq<(Seq<char>, FilterOp, Seq<char>, bool)> {
    match clause_from(s, 0) {
        Some(ps) => ps,
        None => Seq::empty(),
    }
}

fn skip_spaces_exec(s: &Vec<char>, i: usize) -> (r: usize)
    requires
        i <= s.len(),
    ensures
        r == skip_spaces(s@, i as int),
        i <= r <= s.len(),
{
    let mut k = i;
    while k < s.len() && s[k] == ' '
        invariant
            i <= k <= s.len(),
            skip_spaces(s@, k as int) == skip_spaces(s@, i as int),
        decreases s.len() - k,
    {
        k = k + 1;
    }
    k
}

/// The identifier starting at `i`, as the position just past it.
pub fn identifier(s: &Vec<char>, i: usize) -> (r: Option<usize>)
    requires
        i <= s.len(),
    ensures
        r matches Some(j) ==> ident_at(s@, i as int) == Some(j as int) && i < j <= s.len(),
        r is None ==> ident_at(s@, i as int) is None,
{
    if i < s.len() && (('a' <= s[i] && s[i] <= 'z') || ('A' <= s[i] && s[i] <= 'Z') || s[i]
        == '_') {
        let mut k = i + 1;
        while k < s.len() && (('a' <= s[k] && s[k] <= 'z') || ('A' <= s[k] && s[k] <= 'Z')
            || s[k] == '_' || ('0' <= s[k] && s[k] <= '9'))
            invariant
                i < k <= s.len(),
                ident_end(s@, k as int) == ident_end(s@, i + 1),
            decreases s.len() - k,
        {
            k = k + 1;
        }
        Some(k)
    } else {
        None
    }
}

/// The operator starting at `i`, and the position just past it.
pub fn match_op(s: &Vec<char>, i: usize) -> (r: Option<(FilterOp, usize)>)
    requires
        i <= s.len(),
    ensures
        r matches Some((op, j)) ==> op_at(s@, i as int) == Some((op, j as int)) && j <= s.len(),
        r is None ==> op_at(s@, i as int) is None,
{
    let n = s.len();
    if i < n && s[i] == '=' {
        Some((FilterOp::Eq, i + 1))
    } else if i < n && n - i >= 2 && s[i] == '<' && s[i + 1] == '=' {
        Some((FilterOp::Leq, i + 2))
    } else if i < n && n - i >= 2 && s[i] == '>' && s[i + 1] == '=' {
        Some((FilterOp::Geq, i + 2))
    } else if i < n && n - i >= 4 && s[i] == 'l' && s[i + 1] == 'i' && s[i + 2] == 'k' && s[i + 3] == 'e' {
        Some((FilterOp::Like, i + 4))
    } else {
        None
    }
}

/// The target starting at `i` (quotes taken off), whether it was quoted, and
/// the position just past it.
pub fn target_match(s: &Vec<char>, i: usize) -> (r: Option<(String, bool, usize)>)
    requires
        i <= s.len(),
    ensures
        r matches Some((t, q, j)) ==> target_at(s@, i as int) == Some((t@, q, j as int)) && i
            <= j <= s.len(),
        r is Some,
{
    if i < s.len() && s[i] == '"' {
        let mut k = i + 1;
        while k < s.len() && s[k] != '"'
            invariant
                i < k <= s.len(),
                quote_end(s@, k as int) == quote_end(s@, i + 1),
            decreases s.len() - k,
        {
            k = k + 1;
        }
        if k < s.len() {
            return Some((substring(s, i + 1, k), true, k + 1));
        }
    }
    let mut k = i;
    while k < s.len() && '0' <= s[k] && s[k] <= '9'
        invariant
            i <= k <= s.len(),
            digits_end(s@, k as int) == digits_end(s@, i as int),
        decreases s.len() - k,
    {
        k = k + 1;
    }
    Some((substring(s, i, k), false, k))
}

/// The predicate starting at `i`, and the position just past it and the spaces after it.
pub fn label_match(s: &Vec<char>, i: usize) -> (r: Option<(FilterItem, usize)>)
    requires
        i <= s.len(),
    ensures
        r matches Some((p, j)) ==> predicate_at(s@, i as int) == Some((p@, j as int)) && i < j
            <= s.len(),
        r is None ==> predicate_at(s@, i as int) is None,
{
    let pos0 = skip_spaces_exec(s, i);
    let pos1 = match identifier(s, pos0) {
        Some(pos1) => pos1,
        None => return None,
    };
    let pos2 = skip_spaces_exec(s, pos1);
    let (op, pos3) = match match_op(s, pos2) {
        Some(x) => x,
        None => return None,
    };
    let pos4 = skip_spaces_exec(s, pos3);
    let (target, quoted, pos5) = match target_match(s, pos4) {
        Some(x) => x,
        None => return None,
    };
    let pos6 = skip_spaces_exec(s, pos5);
    let subject = substring(s, pos0, pos1);
    Some((FilterItem { subject, op, target, quoted }, pos6))
}

fn clause_exec(s: &Vec<char>, i: usize) -> (r: Option<Vec<FilterItem>>)
    requires
        i <= s.len(),
    ensures
        r matches Some(v) ==> clause_from(s@, i as int) == Some(item_views(v@)),
        r is None ==> clause_from(s@, i as int) is None,
    decreases s.len() - i,
{
    let (p, j) = match label_match(s, i) {
        Some(x) => x,
        None => return None,
    };
    if j >= s.len() {
        let mut v: Vec<FilterItem> = Vec::new();
        v.push(p);
        assert(item_views(v@) == seq![p@]);
        Some(v)
    } else if s[j] == ',' {
        match clause_exec(s, j + 1) {
            None => None,
            Some(rest) => {
                let mut v = rest;
                let ghost old_v = v@;
                v.insert(0, p);
                assert(item_views(v@) == seq![p@] + item_views(old_v));
                Some(v)
            },
        }
    } else {
        None
    }
}

/// The predicates of a `where` clause, or none at all when the text is not a
/// well-formed clause.
pub fn vector_selector(input: &str) -> (r: FilterItems)
    ensures
        r@ == parse_filter_spec(input@),
{
    let s = chars_of(input);
    match clause_exec(&s, 0) {
        Some(filters) => FilterItems { filters },
        None => {
            let r = FilterItems { filters: Vec::new() };
            assert(r@ == Seq::<(Seq<char>, FilterOp, Seq<char>, bool)>::empty());
            r
        },
    }
}

fn holds_exec<T: HasLookup>(p: &FilterItem, row: &T) -> (r: bool)
    ensures
        r == holds(row, p@),
{
    match p.op {
        FilterOp::Eq => if p.quoted {
            let s = row.lookup_str(&p.subject);
            s == p.target
        } else {
            match parse_u32(p.target.as_str()) {
                Some(z) => row.lookup(&p.subject) == z,
                None => {
                    let s = row.lookup_str(&p.subject);
                    s == p.target
                },
            }
        },
        FilterOp::Leq => match parse_u32(p.target.as_str()) {
            Some(z) => row.lookup(&p.subject) <= z,
            None => false,
        },
        FilterOp::Geq => match parse_u32(p.target.as_str()) {
            Some(z) => row.lookup(&p.subject) >= z,
            None => false,
        },
        FilterOp::Like => {
            let s = row.lookup_str(&p.subject);
            contains_text(&chars_of(s.as_str()), &chars_of(p.target.as_str()))
        },
    }
}

/// The predicates written one after another, each as `subject OP target`.
pub open spec fn described(ps: Seq<(Seq<char>, FilterOp, Seq<char>, bool)>) -> Seq<char>
    decreases ps.len(),
{
    if ps.len() == 0 {
        Seq::empty()
    } else {
        let p = ps.last();
        described(ps.drop_last()) + p.0 + " "@ + op_name(p.1) + " "@ + p.2
    }
}

/// The rows of `rows` that satisfy every predicate of `ps`, in their order.
pub open spec fn kept<T: HasLookup>(rows: Seq<T>, ps: Seq<(Seq<char>, FilterOp, Seq<char>, bool)>) -> Seq<T>
    decreases rows.len(),
{
    if rows.len() == 0 {
        rows
    } else {
        let r = kept(rows.drop_last(), ps);
        if satisfies_all(&rows.last(), ps) {
            r.push(rows.last())
        } else {
            r
        }
    }
}

/// Keeps the candidates that satisfy every predicate, in collection order.
pub fn select_rows<T: HasLookup>(candidates: Vec<T>, filters: &FilterItems) -> (r: Vec<T>)
    ensures
        r@ == kept(candidates@, filters@),
{
    let ghost all = candidates@;
    let mut out: Vec<T> = Vec::new();
    for row in it: candidates
        invariant
            it.seq() == all,
            out@ == kept(all.take(it.index() as int), filters@),
    {
        let ghost i = it.index();
        assert(all.take(i + 1).drop_last() == all.take(i as int));
        assert(all.take(i + 1).last() == row);
        if filters.check(&row) {
            out.push(row);
        }
    }
    assert(all.take(all.len() as int) == all);
    out
}

impl FilterItems {
    /// Every predicate as `subject OP target`, one after another.
    pub fn describe(&self) -> (r: String)
        ensures
            r@ == described(self@),
    {
        let ghost ps = self@;
        let mut r = String::new();
        let mut i: usize = 0;
        while i < self.filters.len()
            invariant
                ps == self@,
                i <= self.filters.len(),
                r@ == described(ps.take(i as int)),
            decreases self.filters.len() - i,
        {
            assert(ps.take(i + 1).drop_last() == ps.take(i as int));
            assert(ps.take(i + 1).last() == self.filters@[i as int]@);
            r.append(self.filters[i].describe().as_str());
            i = i + 1;
        }
        assert(ps.take(self.filters.len() as int) == ps);
        r
    }

    /// Whether `row` satisfies every predicate (an empty set accepts every row).
    pub fn check<T: HasLookup>(&self, row: &T) -> (r: bool)
        ensures
            r == satisfies_all(row, self@),
    {
        let mut i: usize = 0;
        while i < self.filters.len()
            invariant
                i <= self.filters.len(),
                forall|k: int| 0 <= k < i ==> holds(row, #[trigger] self@[k]),
            decreases self.filters.len() - i,
        {
            if !holds_exec(&self.filters[i], row) {
                assert(self@[i as int] == self.filters@[i as int]@);
                return false;
            }
            i = i + 1;
        }
        true
    }

    /// The target of the first predicate on `field`, and the set with every
    /// predicate on `field` taken out; `self` is left as it was.
    pub fn extract_required(&self, field: &String) -> (r: (Option<String>, FilterItems))
        ensures
            r.0 matches Some(t) ==> first_target(self@, field@) == Some(t@),
            r.0 is None ==> first_target(self@, field@) is None,
            r.1@ == without(self@, field@),
    {
        let ghost ps = self@;
        let mut found: Option<String> = None;
        let mut rest: Vec<FilterItem> = Vec::new();
        let mut i: usize = 0;
        assert(ps.subrange(0, ps.len() as int) == ps);
        while i < self.filters.len()
            invariant
                ps == self@,
                i <= self.filters.len(),
                item_views(rest@) == without(ps.take(i as int), field@),
                found matches Some(t) ==> first_target(ps, field@) == Some(t@),
                found is None ==> first_target(ps, field@) == first_target(
                    ps.subrange(i as int, ps.len() as int),
                    field@,
                ),
            decreases self.filters.len() - i,
        {
            let p = &self.filters[i];
            let ghost pv = ps[i as int];
            assert(pv == p@);
            assert(ps.take(i + 1).drop_last() == ps.take(i as int));
            assert(ps.subrange(i as int, ps.len() as int).drop_first() == ps.subrange(
                i + 1,
                ps.len() as int,
            ));
            if p.subject == *field {
                if found.is_none() {
                    found = Some(p.target.clone());
                }
            } else {
                let ghost before = rest@;
                rest.push(p.duplicate());
                assert(item_views(rest@) == item_views(before).push(pv));
            }
            i = i + 1;
        }
        assert(ps.take(i as int) == ps);
        proof {
            if found is None {
                assert(ps.subrange(i as int, ps.len() as int).len() == 0);
            }
        }
        (found, FilterItems { filters: rest })
    }

    /// Takes the mandatory parameter `field` out of the set: the target of its
    /// first predicate is returned, and no predicate on `field` stays behind.
    pub fn get_field(&mut self, field: String) -> (r: Option<String>)
        ensures
            r matches Some(t) ==> first_target(old(self)@, field@) == Some(t@),
            r is None ==> first_target(old(self)@, field@) is None,
            final(self)@ == without(old(self)@, field@),
    {
        let (found, rest) = self.extract_required(&field);
        self.filters = rest.filters;
        found
    }
}

/// An empty predicate set accepts every row.
pub proof fn lemma_empty_set_matches<T: HasLookup>(row: &T)
    ensures
        satisfies_all(row, Seq::empty()),
{
}

/// A quoted `=` predicate whose target is the row's text for the subject
/// accepts the row, whether or not that text reads as a number.
pub proof fn lemma_eq_own_text_matches<T: HasLookup>(row: &T, subject: Seq<char>, v: Seq<char>)
    requires
        row.str_attr(subject) == v,
    ensures
        holds(row, (subject, FilterOp::Eq, v, true)),
        satisfies_all(row, seq![(subject, FilterOp::Eq, v, true)]),
{
    assert(seq![(subject, FilterOp::Eq, v, true)][0] == (subject, FilterOp::Eq, v, true));
}

pub open spec fn is_identifier(s: Seq<char>) -> bool {
    s.len() > 0 && is_ident_start(s[0]) && forall|i: int|
        0 <= i < s.len() ==> is_ident_char(#[trigger] s[i])
}

/// The clause text `subject = "v"`.
pub open spec fn quoted_eq_text(subject: Seq<char>, v: Seq<char>) -> Seq<char> {
    subject + seq![' ', '=', ' ', '"'] + v + seq!['"']
}

proof fn lemma_ident_run(s: Seq<char>, i: int, k: int)
    requires
        0 <= i <= k <= s.len(),
        forall|j: int| i <= j < k ==> is_ident_char(#[trigger] s[j]),
        k == s.len() || !is_ident_char(s[k]),
    ensures
        ident_end(s, i) == k,
    decreases k - i,
{
    if i < k {
        lemma_ident_run(s, i + 1, k);
    }
}

proof fn lemma_quote_run(s: Seq<char>, i: int, k: int)
    requires
        0 <= i <= k < s.len(),
        forall|j: int| i <= j < k ==> #[trigger] s[j] != '"',
        s[k] == '"',
    ensures
        quote_end(s, i) == k,
    decreases k - i,
{
    if i < k {
        lemma_quote_run(s, i + 1, k);
    }
}

/// The clause `subject = "v"`, for an identifier `subject` and a `v` without
/// quotes, parses to the single predicate `(subject, =, v)`.
pub proof fn lemma_quoted_eq_parses(subject: Seq<char>, v: Seq<char>)
    requires
        is_identifier(subject),
        forall|i: int| 0 <= i < v.len() ==> #[trigger] v[i] != '"',
    ensures
        parse_filter_spec(quoted_eq_text(subject, v)) == seq![(subject, FilterOp::Eq, v, true)],
{
    let s = quoted_eq_text(subject, v);
    let n = subject.len() as int;
    let m = v.len() as int;
    assert(s.len() == n + 5 + m);
    assert forall|j: int| 0 <= j < n implies #[trigger] s[j] == subject[j] by {}
    assert(s[n] == ' ');
    assert(s[n + 1] == '=');
    assert(s[n + 2] == ' ');
    assert(s[n + 3] == '"');
    assert forall|j: int| n + 4 <= j < n + 4 + m implies #[trigger] s[j] == v[j - n - 4] by {}
    assert(s[n + 4 + m] == '"');
    assert(skip_spaces(s, 0) == 0);
    assert forall|j: int| 1 <= j < n implies is_ident_char(#[trigger] s[j]) by {
        assert(s[j] == subject[j]);
    }
    lemma_ident_run(s, 1, n);
    assert(ident_at(s, 0) == Some(n));
    assert(skip_spaces(s, n + 1) == n + 1);
    assert(skip_spaces(s, n) == n + 1);
    assert(op_at(s, n + 1) == Some((FilterOp::Eq, n + 2)));
    assert(skip_spaces(s, n + 3) == n + 3);
    assert(skip_spaces(s, n + 2) == n + 3);
    assert forall|j: int| n + 4 <= j < n + 4 + m implies #[trigger] s[j] != '"' by {
        assert(s[j] == v[j - n - 4]);
    }
    lemma_quote_run(s, n + 4, n + 4 + m);
    assert(s.subrange(n + 4, n + 4 + m) == v);
    assert(target_at(s, n + 3) == Some((v, true, n + 5 + m)));
    assert(skip_spaces(s, n + 5 + m) == n + 5 + m);
    assert(s.subrange(0, n) == subject);
    assert(predicate_at(s, 0) == Some(((subject, FilterOp::Eq, v, true), n + 5 + m)));
}

/// A row whose text for `subject` is `v` satisfies the clause `subject = "v"`,
/// whether or not `v` reads as a number.
pub proof fn lemma_quoted_eq_clause_matches<T: HasLookup>(row: &T, subject: Seq<char>, v: Seq<char>)
    requires
        is_identifier(subject),
        forall|i: int| 0 <= i < v.len() ==> #[trigger] v[i] != '"',
        row.str_attr(subject) == v,
    ensures
        satisfies_all(row, parse_filter_spec(quoted_eq_text(subject, v))),
{
    lemma_quoted_eq_parses(subject, v);
    lemma_eq_own_text_matches(row, subject, v);
}

/// A `where` text that is not a well-formed clause gives the empty predicate
/// set, which accepts every row.
pub proof fn lemma_malformed_clause_accepts_all<T: HasLookup>(row: &T, text: Seq<char>)
    requires
        clause_from(text, 0) is None,
    ensures
        parse_filter_spec(text) == Seq::<(Seq<char>, FilterOp, Seq<char>, bool)>::empty(),
        satisfies_all(row, parse_filter_spec(text)),
{
}

/// A `>=` predicate with a numeric target `n` accepts exactly the rows whose
/// numeric lookup of the subject is at least `n`.
pub proof fn lemma_geq_is_at_least<T: HasLookup>(
    row: &T,
    subject: Seq<char>,
    target: Seq<char>,
    quoted: bool,
    n: u32,
)
    requires
        parse_u32_spec(target) == Some(n),
    ensures
        holds(row, (subject, FilterOp::Geq, target, quoted)) <==> row.num_attr(subject) >= n,
{
}

/// A `like` predicate accepts exactly the rows whose text for the subject holds
/// the target; an empty target accepts every row.
pub proof fn lemma_like_is_substring<T: HasLookup>(
    row: &T,
    subject: Seq<char>,
    target: Seq<char>,
    quoted: bool,
)
    ensures
        holds(row, (subject, FilterOp::Like, target, quoted)) <==> is_substring(
            target,
            row.str_attr(subject),
        ),
        target.len() == 0 ==> holds(row, (subject, FilterOp::Like, target, quoted)),
{
    if target.len() == 0 {
        let s = row.str_attr(subject);
        assert(s.subrange(0, 0 + target.len() as int) == target);
    }
}

proof fn lemma_without_lacks(ps: Seq<(Seq<char>, FilterOp, Seq<char>, bool)>, field: Seq<char>)
    ensures
        forall|i: int|
            0 <= i < without(ps, field).len() ==> (#[trigger] without(ps, field)[i]).0 != field,
    decreases ps.len(),
{
    if ps.len() > 0 {
        lemma_without_lacks(ps.drop_last(), field);
        let r = without(ps.drop_last(), field);
        if ps.last().0 != field {
            assert forall|i: int| 0 <= i < r.push(ps.last()).len() implies (#[trigger] r.push(
                ps.last(),
            )[i]).0 != field by {
                if i < r.len() {
                    assert(r.push(ps.last())[i] == r[i]);
                }
            }
        }
    }
}

proof fn lemma_first_target_absent(ps: Seq<(Seq<char>, FilterOp, Seq<char>, bool)>, field: Seq<char>)
    requires
        forall|i: int| 0 <= i < ps.len() ==> (#[trigger] ps[i]).0 != field,
    ensures
        first_target(ps, field) is None,
    decreases ps.len(),
{
    if ps.len() > 0 {
        assert(ps[0].0 != field);
        assert forall|i: int| 0 <= i < ps.drop_first().len() implies (
        #[trigger] ps.drop_first()[i]).0 != field by {
            assert(ps.drop_first()[i] == ps[i + 1]);
        }
        lemma_first_target_absent(ps.drop_first(), field);
    }
}

proof fn lemma_first_target_present(
    ps: Seq<(Seq<char>, FilterOp, Seq<char>, bool)>,
    field: Seq<char>,
    k: int,
)
    requires
        0 <= k < ps.len(),
        ps[k].0 == field,
    ensures
        first_target(ps, field) is Some,
    decreases ps.len(),
{
    if ps[0].0 != field {
        assert(ps.drop_first()[k - 1] == ps[k]);
        lemma_first_target_present(ps.drop_first(), field, k - 1);
    }
}

/// Extracting a mandatory parameter gives its value when the set has a predicate
/// on it; the remaining set has no predicate on it, so extracting it again from
/// the remaining set gives nothing.
pub proof fn lemma_extract_once(ps: Seq<(Seq<char>, FilterOp, Seq<char>, bool)>, field: Seq<char>)
    ensures
        (exists|k: int| 0 <= k < ps.len() && (#[trigger] ps[k]).0 == field) ==> first_target(
            ps,
            field,
        ) is Some,
        forall|i: int|
            0 <= i < without(ps, field).len() ==> (#[trigger] without(ps, field)[i]).0 != field,
        first_target(without(ps, field), field) is None,
        without(without(ps, field), field) == without(ps, field),
{
    if exists|k: int| 0 <= k < ps.len() && (#[trigger] ps[k]).0 == field {
        let k = choose|k: int| 0 <= k < ps.len() && (#[trigger] ps[k]).0 == field;
        lemma_first_target_present(ps, field, k);
    }
    lemma_without_lacks(ps, field);
    lemma_first_target_absent(without(ps, field), field);
    lemma_without_keeps(without(ps, field), field);
}

proof fn lemma_without_keeps(ps: Seq<(Seq<char>, FilterOp, Seq<char>, bool)>, field: Seq<char>)
    requires
        forall|i: int| 0 <= i < ps.len() ==> (#[trigger] ps[i]).0 != field,
    ensures
        without(ps, field) == ps,
    decreases ps.len(),
{
    if ps.len() > 0 {
        assert forall|i: int| 0 <= i < ps.drop_last().len() implies (
        #[trigger] ps.drop_last()[i]).0 != field by {
            assert(ps.drop_last()[i] == ps[i]);
        }
        lemma_without_keeps(ps.drop_last(), field);
        assert(ps.last().0 != field);
        assert(ps.drop_last().push(ps.last()) == ps);
    }
}

} // verus!
