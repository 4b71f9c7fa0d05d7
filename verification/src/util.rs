//! Source text bookkeeping and the table of identifiers.

use crate::fxmap::{fx_names_clone, fx_names_get, fx_names_insert, fx_names_new, name_index};
use crate::annot::Loc;
use crate::text::string_from_chars;
use rustc_hash::FxHashMap;
use vstd::prelude::*;

verus! {

/// The characters read so far and, for each line, where it starts, where it
/// ends and its number.
#[derive(Debug, Clone, PartialEq)]
pub struct SourceInfo {
    pub code: Vec<char>,
    pub coordinates: Vec<(usize, usize, usize)>,
}

impl SourceInfo {
    pub fn new() -> (r: SourceInfo)
        ensures
            r.code@ == Seq::<char>::empty(),
            r.coordinates@ == Seq::<(usize, usize, usize)>::empty(),
    {
        SourceInfo { code: Vec::new(), coordinates: Vec::new() }
    }
}

/// `n` times the character `c`.
pub open spec fn repeat(c: char, n: nat) -> Seq<char> {
    Seq::new(n, |i: int| c)
}

/// How a line is shown for the span `loc`: the text of the line, and below
/// it a row of `^` under the characters of the span that the line holds.
/// A line that the span does not touch is not shown, nor is a line or a
/// span whose ends are out of order or outside the text.
pub open spec fn shown_line(code: Seq<char>, line: (usize, usize, usize), loc: Loc) -> Option<
    (Seq<char>, Seq<char>),
> {
    if line.1 < loc.0 || line.0 > loc.1 {
        None
    } else if line.0 > line.1 || line.1 > code.len() || loc.0 > loc.1 {
        None
    } else {
        let first = if loc.0 < line.0 {
            line.0
        } else {
            loc.0
        };
        let last = if loc.1 < line.1 {
            loc.1
        } else {
            line.1
        };
        Some(
            (
                code.subrange(line.0 as int, line.1 as int),
                repeat(' ', (first - line.0) as nat) + repeat('^', (last + 1 - first) as nat),
            ),
        )
    }
}

/// What is shown of the first `n` lines for the span `loc`: for each line
/// that is shown, its text and its row of marks.
pub open spec fn shown_lines(
    code: Seq<char>,
    coordinates: Seq<(usize, usize, usize)>,
    loc: Loc,
    n: nat,
) -> Seq<Seq<char>>
    decreases n,
{
    if n == 0 || n > coordinates.len() {
        Seq::empty()
    } else {
        let rest = shown_lines(code, coordinates, loc, (n - 1) as nat);
        match shown_line(code, coordinates[n - 1], loc) {
            Some((text, marks)) => rest.push(text).push(marks),
            None => rest,
        }
    }
}

impl SourceInfo {
    /// The lines that show the span `loc` in the text: each line that the
    /// span touches, with a row of `^` below it.
    pub fn show_loc(&self, loc: &Loc) -> (r: Vec<String>)
        ensures
            names_view(r@) == shown_lines(
                self.code@,
                self.coordinates@,
                *loc,
                self.coordinates@.len(),
            ),
    {
        let mut out: Vec<String> = Vec::new();
        assert(names_view(out@) =~= Seq::<Seq<char>>::empty());
        let mut i: usize = 0;
        while i < self.coordinates.len()
            invariant
                i <= self.coordinates.len(),
                names_view(out@) == shown_lines(self.code@, self.coordinates@, *loc, i as nat),
            decreases self.coordinates.len() - i,
        {
            let line = self.coordinates[i];
            if !(line.1 < loc.0 || line.0 > loc.1) && !(line.0 > line.1 || line.1
                > self.code.len() || loc.0 > loc.1) {
                let first: usize = if loc.0 < line.0 {
                    line.0
                } else {
                    loc.0
                };
                let last: usize = if loc.1 < line.1 {
                    loc.1
                } else {
                    line.1
                };
                let mut text: Vec<char> = Vec::new();
                let mut j: usize = line.0;
                while j < line.1
                    invariant
                        line.0 <= j <= line.1 <= self.code.len(),
                        text@ == self.code@.subrange(line.0 as int, j as int),
                    decreases line.1 - j,
                {
                    text.push(self.code[j]);
                    assert(text@ =~= self.code@.subrange(line.0 as int, j + 1));
                    j += 1;
                }
                let mut marks: Vec<char> = Vec::new();
                let mut k: usize = line.0;
                assert(marks@ =~= repeat(' ', 0));
                while k < first
                    invariant
                        line.0 <= k <= first,
                        marks@ == repeat(' ', (k - line.0) as nat),
                    decreases first - k,
                {
                    marks.push(' ');
                    assert(marks@ =~= repeat(' ', (k + 1 - line.0) as nat));
                    k += 1;
                }
                let ghost blanks = marks@;
                let mut m: usize = first;
                assert(marks@ =~= blanks + repeat('^', 0));
                while m < last
                    invariant
                        first <= m <= last,
                        marks@ == blanks + repeat('^', (m - first) as nat),
                    decreases last - m,
                {
                    marks.push('^');
                    assert(marks@ =~= blanks + repeat('^', (m + 1 - first) as nat));
                    m += 1;
                }
                marks.push('^');
                assert(marks@ =~= blanks + repeat('^', (last + 1 - first) as nat));
                let ghost before = out@;
                let text_line = string_from_chars(&text);
                let marks_line = string_from_chars(&marks);
                out.push(text_line);
                out.push(marks_line);
                assert(names_view(out@) =~= names_view(before).push(text_line@).push(marks_line@));
            }
            i += 1;
        }
        out
    }
}

/// The number that stands for an identifier.
#[derive(Debug, Clone, Copy, PartialEq, Eq, Structural, Hash)]
pub struct IdentId(pub usize);

/// Gives every identifier a number, in order of first appearance.
///
/// `names` holds the identifiers by number; `table` finds the number of a
/// name. Its view is the sequence of names.
#[derive(Debug)]
pub struct IdentifierTable {
    pub table: FxHashMap<String, usize>,
    pub names: Vec<String>,
    pub ident_id: usize,
}

/// The characters of each name, in order.
pub open spec fn names_view(names: Seq<String>) -> Seq<Seq<char>> {
    Seq::new(names.len(), |i: int| names[i]@)
}

/// The table after `name` has been looked up: unchanged where it is known,
/// and with `name` at the end where it is new.
pub open spec fn intern(names: Seq<Seq<char>>, name: Seq<char>) -> Seq<Seq<char>> {
    if names.contains(name) {
        names
    } else {
        names.push(name)
    }
}

/// The number of `name` once it has been looked up in `names`.
pub open spec fn intern_id(names: Seq<Seq<char>>, name: Seq<char>) -> int {
    if names.contains(name) {
        names.index_of(name)
    } else {
        names.len() as int
    }
}

impl View for IdentifierTable {
    type V = Seq<Seq<char>>;

    open spec fn view(&self) -> Seq<Seq<char>> {
        names_view(self.names@)
    }
}

impl IdentifierTable {
    /// No name occurs twice, and `table` maps each name to its position.
    pub open spec fn wf(&self) -> bool {
        &&& self.ident_id == self.names@.len()
        &&& self@.no_duplicates()
        &&& name_index(self.table).dom() =~= self@.to_set()
        &&& forall|i: int| 0 <= i < self@.len() ==> #[trigger] name_index(self.table)[self@[i]] == i
    }

    pub fn new() -> (r: Self)
        ensures
            r.wf(),
            r@ == Seq::<Seq<char>>::empty(),
    {
        let r = IdentifierTable { table: fx_names_new(), names: Vec::new(), ident_id: 0 };
        assert(r@ =~= Seq::<Seq<char>>::empty());
        r
    }

    /// The number of `name`, which is entered into the table if it is new.
    pub fn get_ident_id(&mut self, name: &str) -> (r: IdentId)
        requires
            old(self).wf(),
        ensures
            final(self).wf(),
            final(self)@ == intern(old(self)@, name@),
            r.0 == intern_id(old(self)@, name@),
            final(self)@[r.0 as int] == name@,
    {
        match fx_names_get(&self.table, name) {
            Some(id) => {
                assert(self@.to_set().contains(name@));
                assert(self@.contains(name@));
                let ghost j = self@.index_of(name@);
                assert(name_index(self.table)[self@[j]] == j);
                IdentId(id)
            },
            None => {
                assert(!self@.to_set().contains(name@));
                assert(!self@.contains(name@));
                let id: usize = self.ident_id;
                let owned: String = name.to_owned();
                fx_names_insert(&mut self.table, name.to_owned(), id);
                self.names.push(owned);
                self.ident_id = self.names.len();
                assert(self@ =~= old(self)@.push(name@));
                assert(name_index(self.table).dom() =~= self@.to_set()) by {
                    assert forall|s: Seq<char>| self@.to_set().contains(s) implies name_index(
                        self.table,
                    ).dom().contains(s) by {
                        let k = choose|k: int| 0 <= k < self@.len() && self@[k] == s;
                        if k < old(self)@.len() {
                            assert(old(self)@[k] == s);
                            assert(old(self)@.to_set().contains(s));
                        }
                    }
                    assert forall|s: Seq<char>| name_index(self.table).dom().contains(
                        s,
                    ) implies self@.to_set().contains(s) by {
                        if s != name@ {
                            assert(old(self)@.to_set().contains(s));
                            let k = choose|k: int| 0 <= k < old(self)@.len() && old(self)@[k] == s;
                            assert(self@[k] == s);
                        } else {
                            assert(self@[id as int] == s);
                        }
                    }
                }
                assert forall|i: int| 0 <= i < self@.len() implies #[trigger] name_index(
                    self.table,
                )[self@[i]] == i by {
                    if i < old(self)@.len() {
                        assert(old(self)@[i] == self@[i]);
                        assert(old(self)@.contains(self@[i]));
                    }
                }
                IdentId(id)
            },
        }
    }

    /// The name that `id` stands for.
    pub fn get_name(&self, id: IdentId) -> (r: &String)
        requires
            id.0 < self@.len(),
        ensures
            r@ == self@[id.0 as int],
    {
        &self.names[id.0]
    }

    /// Whether `id` stands for a name of this table.
    pub fn has_id(&self, id: IdentId) -> (r: bool)
        ensures
            r == (id.0 < self@.len()),
    {
        id.0 < self.names.len()
    }

    pub fn len(&self) -> (r: usize)
        ensures
            r == self@.len(),
    {
        self.names.len()
    }
}

impl Clone for IdentifierTable {
    fn clone(&self) -> (r: Self)
        ensures
            r@ == self@,
            r.wf() == self.wf(),
    {
        let mut names: Vec<String> = Vec::new();
        let mut i: usize = 0;
        while i < self.names.len()
            invariant
                i <= self.names.len(),
                names@.len() == i,
                forall|j: int| 0 <= j < i ==> names@[j]@ == self.names@[j]@,
            decreases self.names.len() - i,
        {
            names.push(self.names[i].clone());
            i += 1;
        }
        let r = IdentifierTable { table: fx_names_clone(&self.table), names, ident_id: self.ident_id };
        assert(r@ =~= self@);
        r
    }
}

impl Default for IdentifierTable {
    fn default() -> (r: Self)
        ensures
            r.wf(),
            r@ == Seq::<Seq<char>>::empty(),
    {
        IdentifierTable::new()
    }
}

} // verus!
