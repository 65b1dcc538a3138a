//! Utilities for expanding entity and character references.

use vstd::prelude::*;
use vstd::utf8::is_scalar;

use crate::chars::char_from_u32;
use crate::chars::push_char;
use crate::chars::starts_with_at;
use crate::chars::substring;
use crate::chars::to_chars;
use crate::event::push_text;
use crate::parser::raw::name_end;
use crate::parser::raw::scan_name;

verus! {

/// The error type in the event an undefined entity is referred to.
///
/// It holds the name of the entity, with its leading `#` where the
/// reference had one.
#[derive(Clone, Debug, PartialEq, Eq)]
pub struct EntityError(pub String);

impl EntityError {
    /// The name of the entity that is not defined.
    pub fn name(&self) -> (r: &String)
        ensures
            r == self.0,
    {
        &self.0
    }

    /// The message of the error.
    pub open spec fn message(name: Seq<char>) -> Seq<char> {
        "entity '"@ + name + "' is not defined"@
    }

    /// Describes the error: `entity 'name' is not defined`.
    pub fn to_string(&self) -> (s: String)
        ensures
            s@ == Self::message(self.0@),
    {
        let mut s = String::new();
        push_text(&mut s, "entity '");
        push_text(&mut s, self.0.as_str());
        push_text(&mut s, "' is not defined");
        s
    }
}

/// The replacement of `name` in a list of definitions: that of the first
/// definition of the name, as in SGML, where the first declaration of an
/// entity binds.
pub open spec fn lookup_in(table: Seq<(Seq<char>, Seq<char>)>, name: Seq<char>) -> Option<
    Seq<char>,
>
    decreases table.len(),
{
    if table.len() == 0 {
        None
    } else if table[0].0 == name {
        Some(table[0].1)
    } else {
        lookup_in(table.drop_first(), name)
    }
}

/// A set of entity definitions: names and the texts that replace them.
#[derive(Clone, Debug, Default)]
pub struct EntityTable {
    entries: Vec<(Vec<char>, String)>,
}

impl View for EntityTable {
    type V = Seq<(Seq<char>, Seq<char>)>;

    closed spec fn view(&self) -> Seq<(Seq<char>, Seq<char>)> {
        Seq::new(self.entries@.len(), |i: int| (self.entries@[i].0@, self.entries@[i].1@))
    }
}

impl EntityTable {
    /// A table without definitions: every entity is undefined.
    pub fn new() -> (t: EntityTable)
        ensures
            t@ == Seq::<(Seq<char>, Seq<char>)>::empty(),
    {
        EntityTable { entries: Vec::new() }
    }

    /// The number of definitions.
    pub fn len(&self) -> (n: usize)
        ensures
            n == self@.len(),
    {
        self.entries.len()
    }

    /// Adds a definition after those that the table holds. A name that is
    /// defined already keeps its first definition.
    pub fn define(self, name: &str, value: &str) -> (t: EntityTable)
        ensures
            t@ == self@.push((name@, value@)),
    {
        let mut t = self;
        let mut text = String::new();
        push_text(&mut text, value);
        t.entries.push((to_chars(name), text));
        t
    }

    /// Looks a name up.
    pub fn lookup(&self, name: &[char]) -> (r: Option<&String>)
        ensures
            match r {
                Some(value) => lookup_in(self@, name@) == Some(value@),
                None => lookup_in(self@, name@) is None,
            },
    {
        let mut i: usize = 0;
        assert(self@.skip(0) == self@);
        while i < self.entries.len()
            invariant
                i <= self.entries@.len(),
                lookup_in(self@, name@) == lookup_in(self@.skip(i as int), name@),
            decreases self.entries@.len() - i,
        {
            let candidate = &self.entries[i].0;
            proof {
                assert(self@.skip(i as int)[0] == (candidate@, self.entries@[i as int].1@));
                assert(self@.skip(i as int).drop_first() == self@.skip(i + 1));
            }
            if candidate.len() == name.len() && starts_with_at(candidate.as_slice(), 0, name) {
                assert(candidate@.subrange(0, candidate@.len() as int) == candidate@);
                return Some(&self.entries[i].1);
            }
            proof {
                if candidate@ == name@ {
                    assert(candidate@.subrange(0, name@.len() as int) == name@);
                }
            }
            i += 1;
        }
        None
    }

    /// Looks a name up, given as a string.
    pub fn get(&self, name: &str) -> (r: Option<String>)
        ensures
            crate::event::option_view(r) == lookup_in(self@, name@),
    {
        let chars = to_chars(name);
        match self.lookup(chars.as_slice()) {
            Some(value) => Some(value.clone()),
            None => None,
        }
    }
}

/// The two kinds of reference: to a general entity or a character (`&`),
/// and to a parameter entity (`%`).
#[derive(Clone, Copy, Debug, PartialEq, Eq)]
pub enum ReferenceKind {
    General,
    Parameter,
}

impl ReferenceKind {
    /// The character that opens a reference of this kind.
    pub open spec fn spec_open(self) -> char {
        match self {
            ReferenceKind::General => '&',
            ReferenceKind::Parameter => '%',
        }
    }

    /// The character that opens a reference of this kind.
    #[verifier::when_used_as_spec(spec_open)]
    pub fn open(self) -> (c: char)
        ensures
            c == self.spec_open(),
    {
        match self {
            ReferenceKind::General => '&',
            ReferenceKind::Parameter => '%',
        }
    }
}

/// What follows the opening character of a reference.
pub enum ReferenceView {
    /// Nothing that makes a reference: the opening character stands for
    /// itself.
    Malformed,
    /// A reference to the character `c`; the text goes on at `end`.
    Character { c: char, end: int },
    /// A reference to the entity whose name ends at `name_end`; the text
    /// goes on at `end`.
    Entity { name_end: int, end: int },
}

/// What follows the opening character of a reference, with positions as
/// machine integers.
#[derive(Clone, Copy, Debug, PartialEq, Eq)]
pub enum Reference {
    Malformed,
    Character { c: char, end: usize },
    Entity { name_end: usize, end: usize },
}

impl View for Reference {
    type V = ReferenceView;

    open spec fn view(&self) -> ReferenceView {
        match *self {
            Reference::Malformed => ReferenceView::Malformed,
            Reference::Character { c, end } => ReferenceView::Character { c, end: end as int },
            Reference::Entity { name_end, end } => ReferenceView::Entity {
                name_end: name_end as int,
                end: end as int,
            },
        }
    }
}

/// The value of a decimal digit, if `c` is one.
pub open spec fn decimal_digit(c: char) -> Option<nat> {
    if '0' <= c <= '9' {
        Some((c as u32 - '0' as u32) as nat)
    } else {
        None
    }
}

/// The value of a hexadecimal digit, if `c` is one.
pub open spec fn hex_digit(c: char) -> Option<nat> {
    if '0' <= c <= '9' {
        Some((c as u32 - '0' as u32) as nat)
    } else if 'a' <= c <= 'f' {
        Some((c as u32 - 'a' as u32 + 10) as nat)
    } else if 'A' <= c <= 'F' {
        Some((c as u32 - 'A' as u32 + 10) as nat)
    } else {
        None
    }
}

/// The value of a digit in the given base (10 or 16), if `c` is one.
pub open spec fn digit_in(base: nat, c: char) -> Option<nat> {
    if base == 16 {
        hex_digit(c)
    } else {
        decimal_digit(c)
    }
}

/// The end of the longest run of digits that starts at `pos`.
pub open spec fn digits_end(s: Seq<char>, pos: int, base: nat) -> int
    decreases s.len() - pos,
{
    if 0 <= pos < s.len() && digit_in(base, s[pos]) is Some {
        digits_end(s, pos + 1, base)
    } else {
        pos
    }
}

/// The number that the digits `s[from..to]` write in the given base.
pub open spec fn digits_value(s: Seq<char>, from: int, to: int, base: nat) -> nat
    decreases to - from,
{
    if from < to && 0 < to <= s.len() {
        digits_value(s, from, to - 1, base) * base + digit_in(base, s[to - 1]).unwrap_or(0)
    } else {
        0
    }
}

/// The position after the semicolon at `pos`, or `pos` if there is none
/// there: the semicolon that closes a reference may be left out.
pub open spec fn skip_semicolon(s: Seq<char>, pos: int) -> int {
    if 0 <= pos < s.len() && s[pos] == ';' {
        pos + 1
    } else {
        pos
    }
}

/// The reference that the number written by the digits `s[from..to]`
/// makes, where `start` is the position of the `#`: to a character if the
/// number is a Unicode scalar value, and else to an entity. Decimal digits
/// name the entity together with the `#`; of hexadecimal digits the name
/// is the `#` and the name that the `x` starts, which goes on over the
/// name characters that follow the digits.
pub open spec fn numeric_reference(
    s: Seq<char>,
    start: int,
    from: int,
    to: int,
    base: nat,
) -> ReferenceView {
    let value = digits_value(s, from, to, base);
    if value <= 0x10FFFF && is_scalar(value as u32) {
        ReferenceView::Character { c: value as u32 as char, end: skip_semicolon(s, to) }
    } else if base == 16 {
        match name_end(s, start + 1) {
            Some(e) => ReferenceView::Entity { name_end: e, end: skip_semicolon(s, e) },
            None => ReferenceView::Malformed,
        }
    } else {
        ReferenceView::Entity { name_end: to, end: skip_semicolon(s, to) }
    }
}

/// The reference to an entity whose name starts at `pos`; the text of the
/// reference may start with a `#` before the name.
pub open spec fn entity_reference(s: Seq<char>, pos: int) -> ReferenceView {
    match name_end(s, pos) {
        Some(e) => ReferenceView::Entity { name_end: e, end: skip_semicolon(s, e) },
        None => ReferenceView::Malformed,
    }
}

/// What the text at `pos`, right after the opening character of a
/// reference, makes.
pub open spec fn reference_at(s: Seq<char>, pos: int, kind: ReferenceKind) -> ReferenceView {
    if 0 <= pos < s.len() && s[pos] == '#' {
        if kind == ReferenceKind::General && pos + 1 < s.len() && decimal_digit(s[pos + 1])
            is Some {
            numeric_reference(s, pos, pos + 1, digits_end(s, pos + 1, 10), 10)
        } else if kind == ReferenceKind::General && pos + 2 < s.len() && s[pos + 1] == 'x'
            && hex_digit(s[pos + 2]) is Some {
            numeric_reference(s, pos, pos + 2, digits_end(s, pos + 2, 16), 16)
        } else {
            entity_reference(s, pos + 1)
        }
    } else {
        entity_reference(s, pos)
    }
}

/// `prefix` followed by the expansion `rest`, if there is one.
pub open spec fn prepend(prefix: Seq<char>, rest: Result<Seq<char>, Seq<char>>) -> Result<
    Seq<char>,
    Seq<char>,
> {
    match rest {
        Ok(text) => Ok(prefix + text),
        Err(name) => Err(name),
    }
}

/// The expansion of the text `s` from `pos` on: `Ok` with the text in
/// which each reference is replaced, or `Err` with the name of the first
/// entity that is referred to and not defined.
pub open spec fn expansion_from(
    s: Seq<char>,
    pos: int,
    kind: ReferenceKind,
    table: Seq<(Seq<char>, Seq<char>)>,
) -> Result<Seq<char>, Seq<char>>
    decreases s.len() - pos,
{
    if pos < 0 || pos >= s.len() {
        Ok(Seq::empty())
    } else if s[pos] != kind.spec_open() {
        prepend(seq![s[pos]], expansion_from(s, pos + 1, kind, table))
    } else {
        match reference_at(s, pos + 1, kind) {
            ReferenceView::Malformed => prepend(
                seq![s[pos]],
                expansion_from(s, pos + 1, kind, table),
            ),
            ReferenceView::Character { c, end } => if pos < end <= s.len() {
                prepend(seq![c], expansion_from(s, end, kind, table))
            } else {
                Ok(Seq::empty())
            },
            ReferenceView::Entity { name_end, end } => if pos < name_end <= end <= s.len() {
                match lookup_in(table, s.subrange(pos + 1, name_end)) {
                    Some(value) => prepend(value, expansion_from(s, end, kind, table)),
                    None => Err(s.subrange(pos + 1, name_end)),
                }
            } else {
                Ok(Seq::empty())
            },
        }
    }
}

/// The expansion of the text `s`.
pub open spec fn expansion(
    s: Seq<char>,
    kind: ReferenceKind,
    table: Seq<(Seq<char>, Seq<char>)>,
) -> Result<Seq<char>, Seq<char>> {
    expansion_from(s, 0, kind, table)
}

/// The characters of an expansion's result, and of its error the name.
pub open spec fn result_view(r: Result<String, EntityError>) -> Result<Seq<char>, Seq<char>> {
    match r {
        Ok(text) => Ok(text@),
        Err(e) => Err(e.0@),
    }
}

/// A run of digits stays within the text.
pub proof fn lemma_digits_end_bounds(s: Seq<char>, pos: int, base: nat)
    requires
        0 <= pos <= s.len(),
    ensures
        pos <= digits_end(s, pos, base) <= s.len(),
    decreases s.len() - pos,
{
    if pos < s.len() && digit_in(base, s[pos]) is Some {
        lemma_digits_end_bounds(s, pos + 1, base);
    }
}

/// A text without the opening character of references is its own
/// expansion, whatever is defined.
pub proof fn lemma_expansion_without_references(
    s: Seq<char>,
    pos: int,
    kind: ReferenceKind,
    table: Seq<(Seq<char>, Seq<char>)>,
)
    requires
        0 <= pos <= s.len(),
        !s.contains(kind.spec_open()),
    ensures
        expansion_from(s, pos, kind, table) == Ok::<Seq<char>, Seq<char>>(
            s.subrange(pos, s.len() as int),
        ),
    decreases s.len() - pos,
{
    if pos < s.len() {
        lemma_expansion_without_references(s, pos + 1, kind, table);
        assert(seq![s[pos]] + s.subrange(pos + 1, s.len() as int) == s.subrange(
            pos,
            s.len() as int,
        ));
    } else {
        assert(s.subrange(pos, s.len() as int) == Seq::<char>::empty());
    }
}

/// The value of the digit `c` in the given base, if it is one.
pub fn digit_value(c: char, hex: bool) -> (r: Option<u32>)
    ensures
        match r {
            Some(d) => digit_in(if hex { 16 } else { 10 }, c) == Some(d as nat) && d < 16,
            None => digit_in(if hex { 16 } else { 10 }, c) is None,
        },
{
    if c >= '0' && c <= '9' {
        Some(c as u32 - '0' as u32)
    } else if hex && c >= 'a' && c <= 'f' {
        Some(c as u32 - 'a' as u32 + 10)
    } else if hex && c >= 'A' && c <= 'F' {
        Some(c as u32 - 'A' as u32 + 10)
    } else {
        None
    }
}

/// The least number that is no code point.
pub const NO_CODE_POINT: u32 = 0x110000;

/// The smaller of the number `n` and the least number that is no code
/// point.
pub open spec fn capped(n: nat) -> nat {
    if n < 0x110000 {
        n
    } else {
        0x110000
    }
}

/// Finds the end of the longest run of digits that starts at `pos`, and
/// computes the number that they write, capped at the least number that is
/// no code point.
pub fn scan_digits(v: &[char], pos: usize, hex: bool) -> (r: (usize, u32))
    requires
        pos <= v@.len(),
    ensures
        r.0 == digits_end(v@, pos as int, if hex { 16 } else { 10 }),
        pos <= r.0 <= v@.len(),
        r.1 == capped(digits_value(v@, pos as int, r.0 as int, if hex { 16 } else { 10 })),
{
    let ghost base: nat = if hex { 16 } else { 10 };
    let mut i: usize = pos;
    let mut value: u32 = 0;
    loop
        invariant
            pos <= i <= v@.len(),
            base == (if hex { 16nat } else { 10nat }),
            digits_end(v@, pos as int, base) == digits_end(v@, i as int, base),
            value == capped(digits_value(v@, pos as int, i as int, base)),
        decreases v@.len() - i,
    {
        if i >= v.len() {
            return (i, value);
        }
        match digit_value(v[i], hex) {
            None => {
                return (i, value);
            },
            Some(d) => {
                let next: u32 = if hex { value * 16 + d } else { value * 10 + d };
                assert(digits_value(v@, pos as int, i + 1, base) == digits_value(
                    v@,
                    pos as int,
                    i as int,
                    base,
                ) * base + d);
                value = if next < NO_CODE_POINT { next } else { NO_CODE_POINT };
                i += 1;
            },
        }
    }
}

/// Skips the semicolon at `pos`, if there is one.
pub fn scan_semicolon(v: &[char], pos: usize) -> (end: usize)
    requires
        pos <= v@.len(),
    ensures
        end == skip_semicolon(v@, pos as int),
        pos <= end <= v@.len(),
{
    if pos < v.len() && v[pos] == ';' {
        pos + 1
    } else {
        pos
    }
}

/// Recognizes an entity reference whose name starts at `pos`.
pub fn scan_entity_reference(v: &[char], pos: usize) -> (r: Reference)
    requires
        pos <= v@.len(),
    ensures
        r@ == entity_reference(v@, pos as int),
        r matches Reference::Entity { name_end, end } ==> pos < name_end <= end <= v@.len(),
        !(r is Character),
{
    match scan_name(v, pos) {
        Some(e) => Reference::Entity { name_end: e, end: scan_semicolon(v, e) },
        None => Reference::Malformed,
    }
}

/// Recognizes what follows the opening character of a reference, from
/// `pos` on.
pub fn scan_reference(v: &[char], pos: usize, kind: ReferenceKind) -> (r: Reference)
    requires
        pos <= v@.len(),
    ensures
        r@ == reference_at(v@, pos as int, kind),
        r matches Reference::Entity { name_end, end } ==> pos < name_end <= end <= v@.len(),
        r matches Reference::Character { c, end } ==> pos < end <= v@.len(),
{
    if pos < v.len() && v[pos] == '#' {
        let general = match kind {
            ReferenceKind::General => true,
            ReferenceKind::Parameter => false,
        };
        if general && v.len() - pos > 1 && digit_value(v[pos + 1], false).is_some() {
            let (to, value) = scan_digits(v, pos + 1, false);
            proof {
                lemma_digits_end_bounds(v@, pos + 2, 10);
            }
            match char_from_u32(value) {
                Some(c) => Reference::Character { c, end: scan_semicolon(v, to) },
                None => Reference::Entity { name_end: to, end: scan_semicolon(v, to) },
            }
        } else if general && v.len() - pos > 2 && v[pos + 1] == 'x' && digit_value(
            v[pos + 2],
            true,
        ).is_some() {
            let (to, value) = scan_digits(v, pos + 2, true);
            proof {
                lemma_digits_end_bounds(v@, pos + 3, 16);
            }
            match char_from_u32(value) {
                Some(c) => Reference::Character { c, end: scan_semicolon(v, to) },
                None => scan_entity_reference(v, pos + 1),
            }
        } else {
            scan_entity_reference(v, pos + 1)
        }
    } else {
        scan_entity_reference(v, pos)
    }
}

/// Expands the references of the given kind in `text`.
pub fn expand_chars(text: &[char], kind: ReferenceKind, entities: &EntityTable) -> (r: Result<
    String,
    EntityError,
>)
    ensures
        result_view(r) == expansion(text@, kind, entities@),
        !text@.contains(kind.spec_open()) ==> result_view(r) == Ok::<Seq<char>, Seq<char>>(text@),
{
    let mut out = String::new();
    let mut i: usize = 0;
    let open = kind.open();
    while i < text.len()
        invariant
            i <= text@.len(),
            open == kind.spec_open(),
            expansion(text@, kind, entities@) == prepend(
                out@,
                expansion_from(text@, i as int, kind, entities@),
            ),
        decreases text@.len() - i,
    {
        let c = text[i];
        let ghost rest = expansion_from(text@, i as int, kind, entities@);
        let ghost before = out@;
        if c != open {
            push_char(&mut out, c);
            proof {
                let tail = expansion_from(text@, i + 1, kind, entities@);
                assert(rest == prepend(seq![c], tail));
                if tail is Ok {
                    assert(before + (seq![c] + tail->Ok_0) == before.push(c) + tail->Ok_0) by {
                        assert(seq![c] == Seq::<char>::empty().push(c));
                    }
                }
            }
            i += 1;
        } else {
            match scan_reference(text, i + 1, kind) {
                Reference::Malformed => {
                    push_char(&mut out, c);
                    proof {
                        let tail = expansion_from(text@, i + 1, kind, entities@);
                        assert(rest == prepend(seq![c], tail));
                        if tail is Ok {
                            assert(before + (seq![c] + tail->Ok_0) == before.push(c)
                                + tail->Ok_0) by {
                                assert(seq![c] == Seq::<char>::empty().push(c));
                            }
                        }
                    }
                    i += 1;
                },
                Reference::Character { c: replacement, end } => {
                    push_char(&mut out, replacement);
                    proof {
                        let tail = expansion_from(text@, end as int, kind, entities@);
                        assert(rest == prepend(seq![replacement], tail));
                        if tail is Ok {
                            assert(before + (seq![replacement] + tail->Ok_0) == before.push(
                                replacement,
                            ) + tail->Ok_0) by {
                                assert(seq![replacement] == Seq::<char>::empty().push(replacement));
                            }
                        }
                    }
                    i = end;
                },
                Reference::Entity { name_end, end } => {
                    let name = vstd::slice::slice_subrange(text, i + 1, name_end);
                    match entities.lookup(name) {
                        Some(value) => {
                            push_text(&mut out, value.as_str());
                            proof {
                                let tail = expansion_from(text@, end as int, kind, entities@);
                                assert(rest == prepend(value@, tail));
                                if tail is Ok {
                                    assert(before + (value@ + tail->Ok_0) == (before
                                        + value@) + tail->Ok_0);
                                }
                            }
                            i = end;
                        },
                        None => {
                            let name = substring(text, i + 1, name_end);
                            return Err(EntityError(name));
                        },
                    }
                },
            }
        }
    }
    proof {
        assert(out@ + Seq::<char>::empty() == out@);
        if !text@.contains(kind.spec_open()) {
            lemma_expansion_without_references(text@, 0, kind, entities@);
            assert(text@.subrange(0, text@.len() as int) == text@);
        }
    }
    Ok(out)
}

/// Expands character references (`&#123;`) in the given text.
/// Any entity references are treated as errors.
pub fn expand_character_references(text: &str) -> (r: Result<String, EntityError>)
    ensures
        result_view(r) == expansion(
            text@,
            ReferenceKind::General,
            Seq::<(Seq<char>, Seq<char>)>::empty(),
        ),
        !text@.contains('&') ==> result_view(r) == Ok::<Seq<char>, Seq<char>>(text@),
{
    let entities = EntityTable::new();
    expand_entities(text, &entities)
}

/// Expands entities (`&foo;`) in the text using the given definitions.
///
/// Character references (`&#123;`) are also expanded, without going through
/// the definitions. Function names (`&#SPACE;`) as well as invalid
/// character references (codes that go beyond Unicode, e.g. `&#1234567;`)
/// are looked up like entities, under their name with the leading `#`.
pub fn expand_entities(text: &str, entities: &EntityTable) -> (r: Result<String, EntityError>)
    ensures
        result_view(r) == expansion(text@, ReferenceKind::General, entities@),
        !text@.contains('&') ==> result_view(r) == Ok::<Seq<char>, Seq<char>>(text@),
{
    let chars = to_chars(text);
    expand_chars(chars.as_slice(), ReferenceKind::General, entities)
}

/// Expands parameter entities (`%foo;`) in the text using the given
/// definitions. Parameter references are only used in specific parts of
/// DTDs; for SGML content, use [`expand_entities`] instead.
pub fn expand_parameter_entities(text: &str, entities: &EntityTable) -> (r: Result<
    String,
    EntityError,
>)
    ensures
        result_view(r) == expansion(text@, ReferenceKind::Parameter, entities@),
        !text@.contains('%') ==> result_view(r) == Ok::<Seq<char>, Seq<char>>(text@),
{
    let chars = to_chars(text);
    expand_chars(chars.as_slice(), ReferenceKind::Parameter, entities)
}

} // verus!
