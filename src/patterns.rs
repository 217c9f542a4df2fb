//! Firing patterns: their human-readable definitions and the catalog of named patterns.
//!
//! A definition is a square of row strings centred on the firing cell. A
//! digit `d` at row `r`, column `j` of a row of length `l` adds `d` copies of
//! the displacement `(l/2 - r, l/2 - j)`; a `.` adds none.
use vstd::prelude::*;
use vstd::string::StrSliceExecFns;

use crate::model::{in_cell_range, offsets_of, Pos};
use crate::{Cell, GridError};

verus! {

pub open spec fn is_digit(ch: char) -> bool {
    '0' as u32 <= ch as u32 <= '9' as u32
}

/// A definition holds digits and dots only.
pub open spec fn is_pattern_char(ch: char) -> bool {
    ch == '.' || is_digit(ch)
}

/// How many copies of its displacement a character adds.
pub open spec fn copies_of(ch: char) -> nat {
    if is_digit(ch) {
        (ch as u32 - '0' as u32) as nat
    } else {
        0
    }
}

/// The displacement of row `r`, column `j` of a row.
pub open spec fn displacement(row: Seq<char>, r: int, j: int) -> Pos {
    ((row.len() / 2) as int - r, (row.len() / 2) as int - j)
}

/// The displacements that the first `j` characters of row `r` add.
pub open spec fn row_offsets(row: Seq<char>, r: int, j: nat) -> Seq<Pos>
    decreases j,
{
    if j == 0 {
        Seq::empty()
    } else {
        row_offsets(row, r, (j - 1) as nat) + Seq::new(
            copies_of(row[j - 1]),
            |_i: int| displacement(row, r, j - 1),
        )
    }
}

/// The displacements that the first `n` rows add.
pub open spec fn rows_offsets(rows: Seq<Seq<char>>, n: nat) -> Seq<Pos>
    decreases n,
{
    if n == 0 {
        Seq::empty()
    } else {
        rows_offsets(rows, (n - 1) as nat) + row_offsets(
            rows[n - 1],
            n - 1,
            rows[n - 1].len(),
        )
    }
}

/// The displacements of a definition, row by row, left to right.
pub open spec fn pattern_offsets(rows: Seq<Seq<char>>) -> Seq<Pos> {
    rows_offsets(rows, rows.len())
}

/// A definition that yields a pattern: digits and dots only, every
/// displacement within cell range, and at least one displacement.
pub open spec fn well_formed(rows: Seq<Seq<char>>) -> bool {
    &&& forall|r: int, j: int|
        0 <= r < rows.len() && 0 <= j < rows[r].len() ==> is_pattern_char(#[trigger] rows[r][j])
    &&& forall|r: int, j: int|
        0 <= r < rows.len() && 0 <= j < rows[r].len() && copies_of(#[trigger] rows[r][j]) > 0
            ==> in_cell_range(displacement(rows[r], r, j))
    &&& pattern_offsets(rows).len() >= 1
}

/// The rows of a definition, as character sequences.
pub open spec fn rows_view(rows: Seq<&str>) -> Seq<Seq<char>> {
    rows.map_values(|s: &str| s@)
}

/// Reads a pattern definition. It yields `None` exactly when the definition is not well formed.
pub fn parse_pattern(rows: &Vec<&str>) -> (r: Option<Vec<Cell>>)
    ensures
        r is Some <==> well_formed(rows_view(rows@)),
        r matches Some(v) ==> offsets_of(v@) == pattern_offsets(rows_view(rows@)),
{
    let ghost rs = rows_view(rows@);
    let mut out: Vec<Cell> = Vec::new();
    let mut r: usize = 0;
    while r < rows.len()
        invariant
            rs == rows_view(rows@),
            r <= rows.len(),
            offsets_of(out@) == rows_offsets(rs, r as nat),
            forall|rr: int, j: int|
                0 <= rr < r && 0 <= j < rs[rr].len() ==> is_pattern_char(#[trigger] rs[rr][j]),
            forall|rr: int, j: int|
                0 <= rr < r && 0 <= j < rs[rr].len() && copies_of(#[trigger] rs[rr][j]) > 0
                    ==> in_cell_range(displacement(rs[rr], rr, j)),
        decreases rows.len() - r,
    {
        let row: &str = rows[r];
        let ghost rv = rs[r as int];
        assert(rv == row@);
        let len = row.unicode_len();
        let half: i128 = (len / 2) as i128;
        let mut j: usize = 0;
        while j < len
            invariant
                rs == rows_view(rows@),
                r < rows.len(),
                rv == rs[r as int],
                rv == row@,
                len == rv.len(),
                half == rv.len() / 2,
                j <= len,
                offsets_of(out@) == rows_offsets(rs, r as nat) + row_offsets(rv, r as int, j as nat),
                forall|rr: int, jj: int|
                    0 <= rr < r && 0 <= jj < rs[rr].len() ==> is_pattern_char(#[trigger] rs[rr][jj]),
                forall|rr: int, jj: int|
                    0 <= rr < r && 0 <= jj < rs[rr].len() && copies_of(#[trigger] rs[rr][jj]) > 0
                        ==> in_cell_range(displacement(rs[rr], rr, jj)),
                forall|jj: int| 0 <= jj < j ==> is_pattern_char(#[trigger] rv[jj]),
                forall|jj: int|
                    0 <= jj < j && copies_of(#[trigger] rv[jj]) > 0 ==> in_cell_range(
                        displacement(rv, r as int, jj),
                    ),
            decreases len - j,
        {
            let ch = row.get_char(j);
            let code = ch as u32;
            let ghost before = offsets_of(out@);
            if ch != '.' {
                if code < '0' as u32 || code > '9' as u32 {
                    assert(!is_pattern_char(rs[r as int][j as int]));
                    return None;
                }
                let count = code - '0' as u32;
                if count > 0 {
                    let dr: i128 = half - r as i128;
                    let dc: i128 = half - j as i128;
                    assert((dr as int, dc as int) == displacement(rv, r as int, j as int));
                    if dr < i16::MIN as i128 || dr > i16::MAX as i128 || dc < i16::MIN as i128 || dc
                        > i16::MAX as i128 {
                        assert(copies_of(rs[r as int][j as int]) > 0);
                        return None;
                    }
                    let cell: Cell = (dr as i16, dc as i16);
                    let mut t: u32 = 0;
                    while t < count
                        invariant
                            t <= count,
                            offsets_of(out@) == before + Seq::new(
                                t as nat,
                                |_i: int| displacement(rv, r as int, j as int),
                            ),
                            (cell.0 as int, cell.1 as int) == displacement(rv, r as int, j as int),
                        decreases count - t,
                    {
                        let ghost prev = out@;
                        out.push(cell);
                        proof {
                            assert(offsets_of(out@) =~= offsets_of(prev).push(
                                (cell.0 as int, cell.1 as int),
                            ));
                            assert(offsets_of(out@) =~= before + Seq::new(
                                (t + 1) as nat,
                                |_i: int| displacement(rv, r as int, j as int),
                            ));
                        }
                        t = t + 1;
                    }
                }
            }
            proof {
                assert(copies_of(rv[j as int]) == (if ch == '.' { 0 } else { code - '0' as u32 }));
                let added = Seq::new(copies_of(rv[j as int]), |_i: int| displacement(rv, r as int, j as int));
                assert(offsets_of(out@) =~= before + added);
                assert(row_offsets(rv, r as int, (j + 1) as nat) == row_offsets(rv, r as int, j as nat) + added);
                assert(offsets_of(out@) =~= rows_offsets(rs, r as nat) + row_offsets(rv, r as int, (j + 1) as nat));
            }
            j = j + 1;
        }
        proof {
            assert(rows_offsets(rs, (r + 1) as nat) == rows_offsets(rs, r as nat) + row_offsets(rv, r as int, len as nat));
        }
        r = r + 1;
    }
    if out.len() == 0 {
        return None;
    }
    Some(out)
}

/// `a` comes no later than `b` in dictionary order, comparing characters from position `i` on.
pub open spec fn text_le_from(a: Seq<char>, b: Seq<char>, i: nat) -> bool
    decreases a.len() - i,
{
    if i >= a.len() {
        true
    } else if i >= b.len() {
        false
    } else if (a[i as int] as u32) < (b[i as int] as u32) {
        true
    } else if (a[i as int] as u32) > (b[i as int] as u32) {
        false
    } else {
        text_le_from(a, b, i + 1)
    }
}

/// `a` comes no later than `b` in dictionary order of characters.
pub open spec fn text_le(a: Seq<char>, b: Seq<char>) -> bool {
    text_le_from(a, b, 0)
}

/// Each name comes no later than the next.
pub open spec fn sorted(s: Seq<Seq<char>>) -> bool {
    forall|i: int| 0 <= i < s.len() - 1 ==> text_le(#[trigger] s[i], s[i + 1])
}

pub open spec fn names_of(v: Seq<String>) -> Seq<Seq<char>> {
    v.map_values(|s: String| s@)
}

proof fn lemma_text_total(a: Seq<char>, b: Seq<char>, i: nat)
    ensures
        text_le_from(a, b, i) || text_le_from(b, a, i),
    decreases a.len() - i,
{
    if i < a.len() && i < b.len() && a[i as int] as u32 == b[i as int] as u32 {
        lemma_text_total(a, b, i + 1);
    }
}

fn text_le_exec(a: &str, b: &str) -> (r: bool)
    ensures
        r == text_le(a@, b@),
{
    let la = a.unicode_len();
    let lb = b.unicode_len();
    let mut i: usize = 0;
    while i < la && i < lb
        invariant
            la == a@.len(),
            lb == b@.len(),
            i <= la,
            i <= lb,
            text_le(a@, b@) == text_le_from(a@, b@, i as nat),
        decreases la - i,
    {
        let x = a.get_char(i) as u32;
        let y = b.get_char(i) as u32;
        if x < y {
            return true;
        }
        if x > y {
            return false;
        }
        i = i + 1;
    }
    i >= la
}

fn copy_cells(src: &Vec<Cell>) -> (r: Vec<Cell>)
    ensures
        r@ == src@,
{
    let mut r: Vec<Cell> = Vec::new();
    let mut i: usize = 0;
    while i < src.len()
        invariant
            i <= src.len(),
            r@ == src@.subrange(0, i as int),
        decreases src.len() - i,
    {
        r.push(src[i]);
        proof {
            assert(r@ =~= src@.subrange(0, i + 1));
        }
        i = i + 1;
    }
    proof {
        assert(r@ =~= src@);
    }
    r
}

/// The named firing patterns.
pub struct Catalog {
    names: Vec<String>,
    offsets: Vec<Vec<Cell>>,
}

impl Catalog {
    pub closed spec fn names_view(&self) -> Seq<Seq<char>> {
        names_of(self.names@)
    }

    pub closed spec fn offsets_view(&self) -> Seq<Seq<Cell>> {
        self.offsets@.map_values(|v: Vec<Cell>| v@)
    }

    /// The displacements of the pattern with the given name.
    pub closed spec fn pattern_of(&self, name: Seq<char>) -> Seq<Cell> {
        let i = choose|i: int| 0 <= i < self.names@.len() && #[trigger] self.names@[i]@ == name;
        self.offsets@[i]@
    }

    /// A valid catalog holds each name once.
    pub proof fn lemma_names_distinct(&self)
        requires
            self.wf(),
        ensures
            self.names_view().no_duplicates(),
            self.names_view().len() == self.offsets_view().len(),
            forall|i: int|
                0 <= i < self.offsets_view().len() ==> (#[trigger] self.offsets_view()[i]).len() >= 1,
    {
        assert forall|a: int, b: int|
            0 <= a < self.names_view().len() && 0 <= b < self.names_view().len() && a != b
            implies self.names_view()[a] != self.names_view()[b] by {
            if a < b {
                assert(self.names@[a]@ != self.names@[b]@);
            } else {
                assert(self.names@[b]@ != self.names@[a]@);
            }
        }
    }

    /// The pattern stored under the name at position `i`.
    pub proof fn lemma_pattern_of(&self, i: int)
        requires
            self.wf(),
            0 <= i < self.names_view().len(),
        ensures
            self.pattern_of(self.names_view()[i]) == self.offsets_view()[i],
    {
        let name = self.names_view()[i];
        assert(self.names@[i]@ == name);
        let c = choose|c: int| 0 <= c < self.names@.len() && #[trigger] self.names@[c]@ == name;
        assert(c == i);
    }

    /// Names and patterns pair up, names are distinct, and every pattern has a displacement.
    pub closed spec fn wf(&self) -> bool {
        &&& self.names@.len() == self.offsets@.len()
        &&& forall|i: int| 0 <= i < self.offsets@.len() ==> (#[trigger] self.offsets@[i])@.len() >= 1
        &&& forall|i: int, j: int|
            0 <= i < j < self.names@.len() ==> self.names@[i]@ != self.names@[j]@
    }

    /// An empty catalog.
    pub fn new() -> (r: Catalog)
        ensures
            r.wf(),
            r.names_view() == Seq::<Seq<char>>::empty(),
            r.offsets_view() == Seq::<Seq<Cell>>::empty(),
    {
        let r = Catalog { names: Vec::new(), offsets: Vec::new() };
        proof {
            assert(r.names_view() =~= Seq::<Seq<char>>::empty());
            assert(r.offsets_view() =~= Seq::<Seq<Cell>>::empty());
        }
        r
    }

    /// The number of patterns.
    pub fn len(&self) -> (r: usize)
        requires
            self.wf(),
        ensures
            r == self.names_view().len(),
            r == self.offsets_view().len(),
    {
        self.names.len()
    }

    /// Adds a pattern from its definition. It fails, naming the pattern, when
    /// the definition is not well formed or the name is already taken.
    pub fn add(&mut self, name: &str, rows: &Vec<&str>) -> (r: Result<(), GridError>)
        requires
            old(self).wf(),
        ensures
            final(self).wf(),
            match r {
                Ok(_) => {
                    &&& final(self).names_view() == old(self).names_view().push(name@)
                    &&& final(self).offsets_view().drop_last() == old(self).offsets_view()
                    &&& final(self).offsets_view().len() == old(self).offsets_view().len() + 1
                    &&& offsets_of(final(self).offsets_view().last()) == pattern_offsets(
                        rows_view(rows@),
                    )
                },
                Err(e) => {
                    &&& final(self).names_view() == old(self).names_view()
                    &&& final(self).offsets_view() == old(self).offsets_view()
                    &&& match e {
                        GridError::BadPattern(s) => s@ == name@,
                        _ => false,
                    }
                },
            },
            r is Ok <==> well_formed(rows_view(rows@)) && !old(self).names_view().contains(name@),
    {
        let key: String = name.to_owned();
        let mut i: usize = 0;
        while i < self.names.len()
            invariant
                self.wf(),
                i <= self.names@.len(),
                key@ == name@,
                forall|j: int| 0 <= j < i ==> self.names@[j]@ != name@,
            decreases self.names.len() - i,
        {
            if self.names[i] == key {
                proof {
                    assert(self.names_view()[i as int] == name@);
                }
                return Err(GridError::BadPattern(key));
            }
            i = i + 1;
        }
        assert(!self.names_view().contains(name@)) by {
            if self.names_view().contains(name@) {
                let j = choose|j: int| 0 <= j < self.names_view().len() && self.names_view()[j] == name@;
                assert(self.names@[j]@ == name@);
            }
        }
        match parse_pattern(rows) {
            Some(v) => {
                let ghost old_self = *self;
                self.names.push(key);
                self.offsets.push(v);
                proof {
                    assert(self.names_view() =~= old_self.names_view().push(name@));
                    assert(self.offsets_view().drop_last() =~= old_self.offsets_view());
                    assert forall|i: int, j: int|
                        0 <= i < j < self.names@.len() implies self.names@[i]@ != self.names@[j]@ by {
                        if j == self.names@.len() - 1 {
                            assert(old_self.names_view()[i] == self.names@[i]@);
                        }
                    }
                }
                Ok(())
            },
            None => Err(GridError::BadPattern(key)),
        }
    }

    /// The displacements of the named pattern. It fails, naming the pattern,
    /// when the catalog has no pattern of that name.
    pub fn lookup(&self, name: &str) -> (r: Result<Vec<Cell>, GridError>)
        requires
            self.wf(),
        ensures
            match r {
                Ok(v) => v@.len() >= 1 && v@ == self.pattern_of(name@),
                Err(e) => match e {
                    GridError::UnknownPattern(s) => s@ == name@,
                    _ => false,
                },
            },
            r is Ok <==> self.names_view().contains(name@),
    {
        let key: String = name.to_owned();
        let mut i: usize = 0;
        while i < self.names.len()
            invariant
                self.wf(),
                i <= self.names@.len(),
                key@ == name@,
                forall|j: int| 0 <= j < i ==> self.names@[j]@ != name@,
            decreases self.names.len() - i,
        {
            if self.names[i] == key {
                let v = copy_cells(&self.offsets[i]);
                proof {
                    assert(self.names_view()[i as int] == name@);
                    assert(self.names@[i as int]@ == name@);
                    let c = choose|c: int| 0 <= c < self.names@.len() && #[trigger] self.names@[c]@ == name@;
                    assert(c == i);
                }
                return Ok(v);
            }
            i = i + 1;
        }
        assert(!self.names_view().contains(name@)) by {
            if self.names_view().contains(name@) {
                let j = choose|j: int| 0 <= j < self.names_view().len() && self.names_view()[j] == name@;
                assert(self.names@[j]@ == name@);
            }
        }
        Err(GridError::UnknownPattern(key))
    }

    /// The names of all patterns, in dictionary order.
    pub fn names(&self) -> (r: Vec<String>)
        requires
            self.wf(),
        ensures
            names_of(r@).to_multiset() == self.names_view().to_multiset(),
            sorted(names_of(r@)),
            names_of(r@).no_duplicates(),
    {
        broadcast use vstd::seq_lib::to_multiset_insert, vstd::seq_lib::to_multiset_build;

        let mut r: Vec<String> = Vec::new();
        let mut i: usize = 0;
        proof {
            assert(names_of(r@) =~= self.names_view().subrange(0, 0));
        }
        while i < self.names.len()
            invariant
                i <= self.names@.len(),
                names_of(r@).to_multiset() == self.names_view().subrange(0, i as int).to_multiset(),
                sorted(names_of(r@)),
            decreases self.names.len() - i,
        {
            let x = self.names[i].clone();
            let mut p: usize = r.len();
            while p > 0 && !text_le_exec(r[p - 1].as_str(), x.as_str())
                invariant
                    p <= r@.len(),
                    p == r@.len() || text_le(x@, r@[p as int]@),
                decreases p,
            {
                proof {
                    lemma_text_total(r@[p - 1]@, x@, 0);
                }
                p = p - 1;
            }
            let ghost before = names_of(r@);
            let ghost xv = x@;
            assert(xv == self.names_view()[i as int]);
            r.insert(p, x);
            proof {
                assert(names_of(r@) =~= before.insert(p as int, xv));
                vstd::seq_lib::to_multiset_insert(before, p as int, xv);
                vstd::seq_lib::to_multiset_build(self.names_view().subrange(0, i as int), xv);
                assert(self.names_view().subrange(0, i + 1) =~= self.names_view().subrange(
                    0,
                    i as int,
                ).push(self.names_view()[i as int]));
                let s = names_of(r@);
                assert forall|k: int| 0 <= k < s.len() - 1 implies text_le(#[trigger] s[k], s[k + 1]) by {
                    if k < p - 1 {
                        assert(s[k] == before[k] && s[k + 1] == before[k + 1]);
                    } else if k == p - 1 {
                    } else if k == p {
                    } else {
                        assert(s[k] == before[k - 1] && s[k + 1] == before[k]);
                    }
                }
            }
            i = i + 1;
        }
        proof {
            assert(self.names_view().subrange(0, self.names@.len() as int) =~= self.names_view());
            assert(self.names_view().no_duplicates()) by {
                assert forall|a: int, b: int|
                    0 <= a < self.names_view().len() && 0 <= b < self.names_view().len() && a != b
                    implies self.names_view()[a] != self.names_view()[b] by {
                    if a < b {
                        assert(self.names@[a]@ != self.names@[b]@);
                    } else {
                        assert(self.names@[b]@ != self.names@[a]@);
                    }
                }
            }
            self.names_view().lemma_multiset_has_no_duplicates();
            names_of(r@).lemma_multiset_has_no_duplicates_conv();
        }
        r
    }
}

/// The names of a list of definitions.
pub open spec fn def_names(defs: Seq<(&str, Vec<&str>)>) -> Seq<Seq<char>> {
    defs.map_values(|d: (&str, Vec<&str>)| d.0@)
}

/// Builds a catalog from named definitions, keeping their order. It fails,
/// naming a pattern, when a definition is not well formed or a name repeats.
pub fn catalog_from(defs: &Vec<(&str, Vec<&str>)>) -> (r: Result<Catalog, GridError>)
    ensures
        match r {
            Ok(c) => {
                &&& c.wf()
                &&& c.names_view() == def_names(defs@)
                &&& c.offsets_view().len() == defs@.len()
                &&& forall|i: int|
                    0 <= i < defs@.len() ==> offsets_of(#[trigger] c.offsets_view()[i])
                        == pattern_offsets(rows_view(defs@[i].1@))
            },
            Err(e) => e is BadPattern,
        },
        r is Ok <==> {
            &&& forall|i: int|
                0 <= i < defs@.len() ==> well_formed(rows_view(#[trigger] defs@[i].1@))
            &&& forall|i: int, j: int| 0 <= i < j < defs@.len() ==> defs@[i].0@ != defs@[j].0@
        },
{
    let mut cat = Catalog::new();
    let mut i: usize = 0;
    while i < defs.len()
        invariant
            i <= defs@.len(),
            cat.wf(),
            cat.names_view() == def_names(defs@).subrange(0, i as int),
            cat.offsets_view().len() == i,
            forall|idx: int|
                0 <= idx < i ==> offsets_of(#[trigger] cat.offsets_view()[idx]) == pattern_offsets(
                    rows_view(defs@[idx].1@),
                ),
            forall|idx: int| 0 <= idx < i ==> well_formed(rows_view(#[trigger] defs@[idx].1@)),
            forall|a: int, b: int| 0 <= a < b < i ==> defs@[a].0@ != defs@[b].0@,
        decreases defs.len() - i,
    {
        let ghost before = cat;
        match cat.add(defs[i].0, &defs[i].1) {
            Ok(_) => {},
            Err(e) => {
                proof {
                    if well_formed(rows_view(defs@[i as int].1@)) {
                        let j = choose|j: int|
                            0 <= j < before.names_view().len() && before.names_view()[j]
                                == defs@[i as int].0@;
                        assert(def_names(defs@).subrange(0, i as int)[j] == defs@[j].0@);
                    }
                }
                return Err(e);
            },
        }
        proof {
            assert(cat.names_view() =~= def_names(defs@).subrange(0, i + 1));
            assert forall|idx: int| 0 <= idx < i + 1 implies offsets_of(
                #[trigger] cat.offsets_view()[idx],
            ) == pattern_offsets(rows_view(defs@[idx].1@)) by {
                if idx < i {
                    assert(cat.offsets_view()[idx] == cat.offsets_view().drop_last()[idx]);
                }
            }
            assert forall|a: int, b: int| 0 <= a < b < i + 1 implies defs@[a].0@ != defs@[b].0@ by {
                if b == i {
                    assert(before.names_view()[a] == defs@[a].0@);
                    assert(before.names_view().contains(defs@[a].0@));
                }
            }
        }
        i = i + 1;
    }
    proof {
        assert(def_names(defs@).subrange(0, defs@.len() as int) =~= def_names(defs@));
    }
    Ok(cat)
}

/// The names of the built-in patterns, in the order of their definitions.
pub open spec fn builtin_names() -> Seq<Seq<char>> {
    seq![
        "X++"@,
        "ivy"@,
        "+"@,
        "x"@,
        "o"@,
        "O"@,
        "xO"@,
        "o+"@,
        "oo"@,
        "ox"@,
        "++"@,
        "+++"@,
        "+_+"@,
        "o++"@,
        "o+++"@,
        "o_+"@,
        "o-+"@,
        "o-+x"@,
        "o=+"@,
        "+o"@,
        "xo"@,
        "+x"@,
        "x+"@,
        "::"@,
        ";;"@,
        "Y"@,
        "Y+"@,
        "H"@,
        "sh"@,
    ]
}

/// The row strings of the built-in definitions.
pub open spec fn builtin_rows() -> Seq<Seq<Seq<char>>> {
    seq![
        seq!["..1.."@, ".313."@, "11.11"@, ".313."@, "..1.."@],
        seq!["121"@, "222"@, "121"@],
        seq![".1."@, "1.1"@, ".1."@],
        seq!["1.1"@, "..."@, "1.1"@],
        seq!["111"@, "1.1"@, "111"@],
        seq!["11111"@, "1...1"@, "1...1"@, "1...1"@, "11111"@],
        seq!["11111"@, "11.11"@, "1...1"@, "11.11"@, "11111"@],
        seq!["121"@, "2.2"@, "121"@],
        seq!["11211"@, "11111"@, "21.12"@, "11111"@, "11211"@],
        seq!["212"@, "1.1"@, "212"@],
        seq!["..1.."@, "..1.."@, "11.11"@, "..1.."@, "..1.."@],
        seq!["..2.."@, "..1.."@, "21.12"@, "..1.."@, "..2.."@],
        seq!["...1..."@, "...1..."@, "......."@, "11...11"@, "......."@, "...1..."@, "...1..."@],
        seq!["..1.."@, ".111."@, "11.11"@, ".111."@, "..1.."@],
        seq!["...1..."@, "...1..."@, "..111.."@, "111.111"@, "..111.."@, "...1..."@, "...1..."@],
        seq!["...1..."@, "......."@, "..111.."@, "1.1.1.1"@, "..111.."@, "......."@, "...1..."@],
        seq!["..1.."@, ".121."@, "12.21"@, ".121."@, "..1.."@],
        seq!["..1.."@, ".222."@, "12.21"@, ".222."@, "..1.."@],
        seq!["..2.."@, ".111."@, "21.12"@, ".111."@, "..2.."@],
        seq!["11211"@, "1.1.1"@, "21.12"@, "1.1.1"@, "11211"@],
        seq!["11211"@, "11.11"@, "2...2"@, "11.11"@, "11211"@],
        seq!["1...1"@, "..1.."@, ".1.1."@, "..1.."@, "1...1"@],
        seq!["..1.."@, ".1.1."@, "1...1"@, ".1.1."@, "..1.."@],
        seq!["11.11"@, ".1.1."@, "....."@, ".1.1."@, "11.11"@],
        seq![".1.1."@, "11.11"@, "....."@, "11.11"@, ".1.1."@],
        seq![".111."@, "1.1.1"@, "11.11"@, "1.1.1"@, ".111."@],
        seq![".121."@, "1.1.1"@, "21.12"@, "1.1.1"@, ".121."@],
        seq![".1.1."@, "11211"@, ".2.2."@, "11211"@, ".1.1."@],
        seq![".1.1."@, "11111"@, ".1.1."@, "11111"@, ".1.1."@],
    ]
}

/// The displacements of the built-in patterns, written out.
pub open spec fn builtin_offsets() -> Seq<Seq<Pos>> {
    seq![
        seq![(2int, 0int), (1int, 1int), (1int, 1int), (1int, 1int), (1int, 0int), (1int, -1int), (1int, -1int), (1int, -1int), (0int, 2int), (0int, 1int), (0int, -1int), (0int, -2int), (-1int, 1int), (-1int, 1int), (-1int, 1int), (-1int, 0int), (-1int, -1int), (-1int, -1int), (-1int, -1int), (-2int, 0int)],
        seq![(1int, 1int), (1int, 0int), (1int, 0int), (1int, -1int), (0int, 1int), (0int, 1int), (0int, 0int), (0int, 0int), (0int, -1int), (0int, -1int), (-1int, 1int), (-1int, 0int), (-1int, 0int), (-1int, -1int)],
        seq![(1int, 0int), (0int, 1int), (0int, -1int), (-1int, 0int)],
        seq![(1int, 1int), (1int, -1int), (-1int, 1int), (-1int, -1int)],
        seq![(1int, 1int), (1int, 0int), (1int, -1int), (0int, 1int), (0int, -1int), (-1int, 1int), (-1int, 0int), (-1int, -1int)],
        seq![(2int, 2int), (2int, 1int), (2int, 0int), (2int, -1int), (2int, -2int), (1int, 2int), (1int, -2int), (0int, 2int), (0int, -2int), (-1int, 2int), (-1int, -2int), (-2int, 2int), (-2int, 1int), (-2int, 0int), (-2int, -1int), (-2int, -2int)],
        seq![(2int, 2int), (2int, 1int), (2int, 0int), (2int, -1int), (2int, -2int), (1int, 2int), (1int, 1int), (1int, -1int), (1int, -2int), (0int, 2int), (0int, -2int), (-1int, 2int), (-1int, 1int), (-1int, -1int), (-1int, -2int), (-2int, 2int), (-2int, 1int), (-2int, 0int), (-2int, -1int), (-2int, -2int)],
        seq![(1int, 1int), (1int, 0int), (1int, 0int), (1int, -1int), (0int, 1int), (0int, 1int), (0int, -1int), (0int, -1int), (-1int, 1int), (-1int, 0int), (-1int, 0int), (-1int, -1int)],
        seq![(2int, 2int), (2int, 1int), (2int, 0int), (2int, 0int), (2int, -1int), (2int, -2int), (1int, 2int), (1int, 1int), (1int, 0int), (1int, -1int), (1int, -2int), (0int, 2int), (0int, 2int), (0int, 1int), (0int, -1int), (0int, -2int), (0int, -2int), (-1int, 2int), (-1int, 1int), (-1int, 0int), (-1int, -1int), (-1int, -2int), (-2int, 2int), (-2int, 1int), (-2int, 0int), (-2int, 0int), (-2int, -1int), (-2int, -2int)],
        seq![(1int, 1int), (1int, 1int), (1int, 0int), (1int, -1int), (1int, -1int), (0int, 1int), (0int, -1int), (-1int, 1int), (-1int, 1int), (-1int, 0int), (-1int, -1int), (-1int, -1int)],
        seq![(2int, 0int), (1int, 0int), (0int, 2int), (0int, 1int), (0int, -1int), (0int, -2int), (-1int, 0int), (-2int, 0int)],
        seq![(2int, 0int), (2int, 0int), (1int, 0int), (0int, 2int), (0int, 2int), (0int, 1int), (0int, -1int), (0int, -2int), (0int, -2int), (-1int, 0int), (-2int, 0int), (-2int, 0int)],
        seq![(3int, 0int), (2int, 0int), (0int, 3int), (0int, 2int), (0int, -2int), (0int, -3int), (-2int, 0int), (-3int, 0int)],
        seq![(2int, 0int), (1int, 1int), (1int, 0int), (1int, -1int), (0int, 2int), (0int, 1int), (0int, -1int), (0int, -2int), (-1int, 1int), (-1int, 0int), (-1int, -1int), (-2int, 0int)],
        seq![(3int, 0int), (2int, 0int), (1int, 1int), (1int, 0int), (1int, -1int), (0int, 3int), (0int, 2int), (0int, 1int), (0int, -1int), (0int, -2int), (0int, -3int), (-1int, 1int), (-1int, 0int), (-1int, -1int), (-2int, 0int), (-3int, 0int)],
        seq![(3int, 0int), (1int, 1int), (1int, 0int), (1int, -1int), (0int, 3int), (0int, 1int), (0int, -1int), (0int, -3int), (-1int, 1int), (-1int, 0int), (-1int, -1int), (-3int, 0int)],
        seq![(2int, 0int), (1int, 1int), (1int, 0int), (1int, 0int), (1int, -1int), (0int, 2int), (0int, 1int), (0int, 1int), (0int, -1int), (0int, -1int), (0int, -2int), (-1int, 1int), (-1int, 0int), (-1int, 0int), (-1int, -1int), (-2int, 0int)],
        seq![(2int, 0int), (1int, 1int), (1int, 1int), (1int, 0int), (1int, 0int), (1int, -1int), (1int, -1int), (0int, 2int), (0int, 1int), (0int, 1int), (0int, -1int), (0int, -1int), (0int, -2int), (-1int, 1int), (-1int, 1int), (-1int, 0int), (-1int, 0int), (-1int, -1int), (-1int, -1int), (-2int, 0int)],
        seq![(2int, 0int), (2int, 0int), (1int, 1int), (1int, 0int), (1int, -1int), (0int, 2int), (0int, 2int), (0int, 1int), (0int, -1int), (0int, -2int), (0int, -2int), (-1int, 1int), (-1int, 0int), (-1int, -1int), (-2int, 0int), (-2int, 0int)],
        seq![(2int, 2int), (2int, 1int), (2int, 0int), (2int, 0int), (2int, -1int), (2int, -2int), (1int, 2int), (1int, 0int), (1int, -2int), (0int, 2int), (0int, 2int), (0int, 1int), (0int, -1int), (0int, -2int), (0int, -2int), (-1int, 2int), (-1int, 0int), (-1int, -2int), (-2int, 2int), (-2int, 1int), (-2int, 0int), (-2int, 0int), (-2int, -1int), (-2int, -2int)],
        seq![(2int, 2int), (2int, 1int), (2int, 0int), (2int, 0int), (2int, -1int), (2int, -2int), (1int, 2int), (1int, 1int), (1int, -1int), (1int, -2int), (0int, 2int), (0int, 2int), (0int, -2int), (0int, -2int), (-1int, 2int), (-1int, 1int), (-1int, -1int), (-1int, -2int), (-2int, 2int), (-2int, 1int), (-2int, 0int), (-2int, 0int), (-2int, -1int), (-2int, -2int)],
        seq![(2int, 2int), (2int, -2int), (1int, 0int), (0int, 1int), (0int, -1int), (-1int, 0int), (-2int, 2int), (-2int, -2int)],
        seq![(2int, 0int), (1int, 1int), (1int, -1int), (0int, 2int), (0int, -2int), (-1int, 1int), (-1int, -1int), (-2int, 0int)],
        seq![(2int, 2int), (2int, 1int), (2int, -1int), (2int, -2int), (1int, 1int), (1int, -1int), (-1int, 1int), (-1int, -1int), (-2int, 2int), (-2int, 1int), (-2int, -1int), (-2int, -2int)],
        seq![(2int, 1int), (2int, -1int), (1int, 2int), (1int, 1int), (1int, -1int), (1int, -2int), (-1int, 2int), (-1int, 1int), (-1int, -1int), (-1int, -2int), (-2int, 1int), (-2int, -1int)],
        seq![(2int, 1int), (2int, 0int), (2int, -1int), (1int, 2int), (1int, 0int), (1int, -2int), (0int, 2int), (0int, 1int), (0int, -1int), (0int, -2int), (-1int, 2int), (-1int, 0int), (-1int, -2int), (-2int, 1int), (-2int, 0int), (-2int, -1int)],
        seq![(2int, 1int), (2int, 0int), (2int, 0int), (2int, -1int), (1int, 2int), (1int, 0int), (1int, -2int), (0int, 2int), (0int, 2int), (0int, 1int), (0int, -1int), (0int, -2int), (0int, -2int), (-1int, 2int), (-1int, 0int), (-1int, -2int), (-2int, 1int), (-2int, 0int), (-2int, 0int), (-2int, -1int)],
        seq![(2int, 1int), (2int, -1int), (1int, 2int), (1int, 1int), (1int, 0int), (1int, 0int), (1int, -1int), (1int, -2int), (0int, 1int), (0int, 1int), (0int, -1int), (0int, -1int), (-1int, 2int), (-1int, 1int), (-1int, 0int), (-1int, 0int), (-1int, -1int), (-1int, -2int), (-2int, 1int), (-2int, -1int)],
        seq![(2int, 1int), (2int, -1int), (1int, 2int), (1int, 1int), (1int, 0int), (1int, -1int), (1int, -2int), (0int, 1int), (0int, -1int), (-1int, 2int), (-1int, 1int), (-1int, 0int), (-1int, -1int), (-1int, -2int), (-2int, 1int), (-2int, -1int)],
    ]
}

proof fn lemma_builtin_0()
    ensures
        well_formed(seq!["..1.."@, ".313."@, "11.11"@, ".313."@, "..1.."@]),
        pattern_offsets(seq!["..1.."@, ".313."@, "11.11"@, ".313."@, "..1.."@]) == seq![(2int, 0int), (1int, 1int), (1int, 1int), (1int, 1int), (1int, 0int), (1int, -1int), (1int, -1int), (1int, -1int), (0int, 2int), (0int, 1int), (0int, -1int), (0int, -2int), (-1int, 1int), (-1int, 1int), (-1int, 1int), (-1int, 0int), (-1int, -1int), (-1int, -1int), (-1int, -1int), (-2int, 0int)],
{
    reveal_strlit("..1..");
    reveal_strlit(".313.");
    reveal_strlit("11.11");
    reveal_with_fuel(rows_offsets, 6);
    reveal_with_fuel(row_offsets, 6);
    assert(pattern_offsets(seq!["..1.."@, ".313."@, "11.11"@, ".313."@, "..1.."@]) =~= seq![(2int, 0int), (1int, 1int), (1int, 1int), (1int, 1int), (1int, 0int), (1int, -1int), (1int, -1int), (1int, -1int), (0int, 2int), (0int, 1int), (0int, -1int), (0int, -2int), (-1int, 1int), (-1int, 1int), (-1int, 1int), (-1int, 0int), (-1int, -1int), (-1int, -1int), (-1int, -1int), (-2int, 0int)]);
}

proof fn lemma_builtin_1()
    ensures
        well_formed(seq!["121"@, "222"@, "121"@]),
        pattern_offsets(seq!["121"@, "222"@, "121"@]) == seq![(1int, 1int), (1int, 0int), (1int, 0int), (1int, -1int), (0int, 1int), (0int, 1int), (0int, 0int), (0int, 0int), (0int, -1int), (0int, -1int), (-1int, 1int), (-1int, 0int), (-1int, 0int), (-1int, -1int)],
{
    reveal_strlit("121");
    reveal_strlit("222");
    reveal_with_fuel(rows_offsets, 4);
    reveal_with_fuel(row_offsets, 4);
    assert(pattern_offsets(seq!["121"@, "222"@, "121"@]) =~= seq![(1int, 1int), (1int, 0int), (1int, 0int), (1int, -1int), (0int, 1int), (0int, 1int), (0int, 0int), (0int, 0int), (0int, -1int), (0int, -1int), (-1int, 1int), (-1int, 0int), (-1int, 0int), (-1int, -1int)]);
}

proof fn lemma_builtin_2()
    ensures
        well_formed(seq![".1."@, "1.1"@, ".1."@]),
        pattern_offsets(seq![".1."@, "1.1"@, ".1."@]) == seq![(1int, 0int), (0int, 1int), (0int, -1int), (-1int, 0int)],
{
    reveal_strlit(".1.");
    reveal_strlit("1.1");
    reveal_with_fuel(rows_offsets, 4);
    reveal_with_fuel(row_offsets, 4);
    assert(pattern_offsets(seq![".1."@, "1.1"@, ".1."@]) =~= seq![(1int, 0int), (0int, 1int), (0int, -1int), (-1int, 0int)]);
}

proof fn lemma_builtin_3()
    ensures
        well_formed(seq!["1.1"@, "..."@, "1.1"@]),
        pattern_offsets(seq!["1.1"@, "..."@, "1.1"@]) == seq![(1int, 1int), (1int, -1int), (-1int, 1int), (-1int, -1int)],
{
    reveal_strlit("...");
    reveal_strlit("1.1");
    reveal_with_fuel(rows_offsets, 4);
    reveal_with_fuel(row_offsets, 4);
    assert(pattern_offsets(seq!["1.1"@, "..."@, "1.1"@]) =~= seq![(1int, 1int), (1int, -1int), (-1int, 1int), (-1int, -1int)]);
}

proof fn lemma_builtin_4()
    ensures
        well_formed(seq!["111"@, "1.1"@, "111"@]),
        pattern_offsets(seq!["111"@, "1.1"@, "111"@]) == seq![(1int, 1int), (1int, 0int), (1int, -1int), (0int, 1int), (0int, -1int), (-1int, 1int), (-1int, 0int), (-1int, -1int)],
{
    reveal_strlit("1.1");
    reveal_strlit("111");
    reveal_with_fuel(rows_offsets, 4);
    reveal_with_fuel(row_offsets, 4);
    assert(pattern_offsets(seq!["111"@, "1.1"@, "111"@]) =~= seq![(1int, 1int), (1int, 0int), (1int, -1int), (0int, 1int), (0int, -1int), (-1int, 1int), (-1int, 0int), (-1int, -1int)]);
}

proof fn lemma_builtin_5()
    ensures
        well_formed(seq!["11111"@, "1...1"@, "1...1"@, "1...1"@, "11111"@]),
        pattern_offsets(seq!["11111"@, "1...1"@, "1...1"@, "1...1"@, "11111"@]) == seq![(2int, 2int), (2int, 1int), (2int, 0int), (2int, -1int), (2int, -2int), (1int, 2int), (1int, -2int), (0int, 2int), (0int, -2int), (-1int, 2int), (-1int, -2int), (-2int, 2int), (-2int, 1int), (-2int, 0int), (-2int, -1int), (-2int, -2int)],
{
    reveal_strlit("1...1");
    reveal_strlit("11111");
    reveal_with_fuel(rows_offsets, 6);
    reveal_with_fuel(row_offsets, 6);
    assert(pattern_offsets(seq!["11111"@, "1...1"@, "1...1"@, "1...1"@, "11111"@]) =~= seq![(2int, 2int), (2int, 1int), (2int, 0int), (2int, -1int), (2int, -2int), (1int, 2int), (1int, -2int), (0int, 2int), (0int, -2int), (-1int, 2int), (-1int, -2int), (-2int, 2int), (-2int, 1int), (-2int, 0int), (-2int, -1int), (-2int, -2int)]);
}

proof fn lemma_builtin_6()
    ensures
        well_formed(seq!["11111"@, "11.11"@, "1...1"@, "11.11"@, "11111"@]),
        pattern_offsets(seq!["11111"@, "11.11"@, "1...1"@, "11.11"@, "11111"@]) == seq![(2int, 2int), (2int, 1int), (2int, 0int), (2int, -1int), (2int, -2int), (1int, 2int), (1int, 1int), (1int, -1int), (1int, -2int), (0int, 2int), (0int, -2int), (-1int, 2int), (-1int, 1int), (-1int, -1int), (-1int, -2int), (-2int, 2int), (-2int, 1int), (-2int, 0int), (-2int, -1int), (-2int, -2int)],
{
    reveal_strlit("1...1");
    reveal_strlit("11.11");
    reveal_strlit("11111");
    reveal_with_fuel(rows_offsets, 6);
    reveal_with_fuel(row_offsets, 6);
    assert(pattern_offsets(seq!["11111"@, "11.11"@, "1...1"@, "11.11"@, "11111"@]) =~= seq![(2int, 2int), (2int, 1int), (2int, 0int), (2int, -1int), (2int, -2int), (1int, 2int), (1int, 1int), (1int, -1int), (1int, -2int), (0int, 2int), (0int, -2int), (-1int, 2int), (-1int, 1int), (-1int, -1int), (-1int, -2int), (-2int, 2int), (-2int, 1int), (-2int, 0int), (-2int, -1int), (-2int, -2int)]);
}

proof fn lemma_builtin_7()
    ensures
        well_formed(seq!["121"@, "2.2"@, "121"@]),
        pattern_offsets(seq!["121"@, "2.2"@, "121"@]) == seq![(1int, 1int), (1int, 0int), (1int, 0int), (1int, -1int), (0int, 1int), (0int, 1int), (0int, -1int), (0int, -1int), (-1int, 1int), (-1int, 0int), (-1int, 0int), (-1int, -1int)],
{
    reveal_strlit("121");
    reveal_strlit("2.2");
    reveal_with_fuel(rows_offsets, 4);
    reveal_with_fuel(row_offsets, 4);
    assert(pattern_offsets(seq!["121"@, "2.2"@, "121"@]) =~= seq![(1int, 1int), (1int, 0int), (1int, 0int), (1int, -1int), (0int, 1int), (0int, 1int), (0int, -1int), (0int, -1int), (-1int, 1int), (-1int, 0int), (-1int, 0int), (-1int, -1int)]);
}

proof fn lemma_builtin_8()
    ensures
        well_formed(seq!["11211"@, "11111"@, "21.12"@, "11111"@, "11211"@]),
        pattern_offsets(seq!["11211"@, "11111"@, "21.12"@, "11111"@, "11211"@]) == seq![(2int, 2int), (2int, 1int), (2int, 0int), (2int, 0int), (2int, -1int), (2int, -2int), (1int, 2int), (1int, 1int), (1int, 0int), (1int, -1int), (1int, -2int), (0int, 2int), (0int, 2int), (0int, 1int), (0int, -1int), (0int, -2int), (0int, -2int), (-1int, 2int), (-1int, 1int), (-1int, 0int), (-1int, -1int), (-1int, -2int), (-2int, 2int), (-2int, 1int), (-2int, 0int), (-2int, 0int), (-2int, -1int), (-2int, -2int)],
{
    reveal_strlit("11111");
    reveal_strlit("11211");
    reveal_strlit("21.12");
    reveal_with_fuel(rows_offsets, 6);
    reveal_with_fuel(row_offsets, 6);
    assert(pattern_offsets(seq!["11211"@, "11111"@, "21.12"@, "11111"@, "11211"@]) =~= seq![(2int, 2int), (2int, 1int), (2int, 0int), (2int, 0int), (2int, -1int), (2int, -2int), (1int, 2int), (1int, 1int), (1int, 0int), (1int, -1int), (1int, -2int), (0int, 2int), (0int, 2int), (0int, 1int), (0int, -1int), (0int, -2int), (0int, -2int), (-1int, 2int), (-1int, 1int), (-1int, 0int), (-1int, -1int), (-1int, -2int), (-2int, 2int), (-2int, 1int), (-2int, 0int), (-2int, 0int), (-2int, -1int), (-2int, -2int)]);
}

proof fn lemma_builtin_9()
    ensures
        well_formed(seq!["212"@, "1.1"@, "212"@]),
        pattern_offsets(seq!["212"@, "1.1"@, "212"@]) == seq![(1int, 1int), (1int, 1int), (1int, 0int), (1int, -1int), (1int, -1int), (0int, 1int), (0int, -1int), (-1int, 1int), (-1int, 1int), (-1int, 0int), (-1int, -1int), (-1int, -1int)],
{
    reveal_strlit("1.1");
    reveal_strlit("212");
    reveal_with_fuel(rows_offsets, 4);
    reveal_with_fuel(row_offsets, 4);
    assert(pattern_offsets(seq!["212"@, "1.1"@, "212"@]) =~= seq![(1int, 1int), (1int, 1int), (1int, 0int), (1int, -1int), (1int, -1int), (0int, 1int), (0int, -1int), (-1int, 1int), (-1int, 1int), (-1int, 0int), (-1int, -1int), (-1int, -1int)]);
}

proof fn lemma_builtin_10()
    ensures
        well_formed(seq!["..1.."@, "..1.."@, "11.11"@, "..1.."@, "..1.."@]),
        pattern_offsets(seq!["..1.."@, "..1.."@, "11.11"@, "..1.."@, "..1.."@]) == seq![(2int, 0int), (1int, 0int), (0int, 2int), (0int, 1int), (0int, -1int), (0int, -2int), (-1int, 0int), (-2int, 0int)],
{
    reveal_strlit("..1..");
    reveal_strlit("11.11");
    reveal_with_fuel(rows_offsets, 6);
    reveal_with_fuel(row_offsets, 6);
    assert(pattern_offsets(seq!["..1.."@, "..1.."@, "11.11"@, "..1.."@, "..1.."@]) =~= seq![(2int, 0int), (1int, 0int), (0int, 2int), (0int, 1int), (0int, -1int), (0int, -2int), (-1int, 0int), (-2int, 0int)]);
}

proof fn lemma_builtin_11()
    ensures
        well_formed(seq!["..2.."@, "..1.."@, "21.12"@, "..1.."@, "..2.."@]),
        pattern_offsets(seq!["..2.."@, "..1.."@, "21.12"@, "..1.."@, "..2.."@]) == seq![(2int, 0int), (2int, 0int), (1int, 0int), (0int, 2int), (0int, 2int), (0int, 1int), (0int, -1int), (0int, -2int), (0int, -2int), (-1int, 0int), (-2int, 0int), (-2int, 0int)],
{
    reveal_strlit("..1..");
    reveal_strlit("..2..");
    reveal_strlit("21.12");
    reveal_with_fuel(rows_offsets, 6);
    reveal_with_fuel(row_offsets, 6);
    assert(pattern_offsets(seq!["..2.."@, "..1.."@, "21.12"@, "..1.."@, "..2.."@]) =~= seq![(2int, 0int), (2int, 0int), (1int, 0int), (0int, 2int), (0int, 2int), (0int, 1int), (0int, -1int), (0int, -2int), (0int, -2int), (-1int, 0int), (-2int, 0int), (-2int, 0int)]);
}

proof fn lemma_builtin_12()
    ensures
        well_formed(seq!["...1..."@, "...1..."@, "......."@, "11...11"@, "......."@, "...1..."@, "...1..."@]),
        pattern_offsets(seq!["...1..."@, "...1..."@, "......."@, "11...11"@, "......."@, "...1..."@, "...1..."@]) == seq![(3int, 0int), (2int, 0int), (0int, 3int), (0int, 2int), (0int, -2int), (0int, -3int), (-2int, 0int), (-3int, 0int)],
{
    reveal_strlit(".......");
    reveal_strlit("...1...");
    reveal_strlit("11...11");
    reveal_with_fuel(rows_offsets, 8);
    reveal_with_fuel(row_offsets, 8);
    assert(pattern_offsets(seq!["...1..."@, "...1..."@, "......."@, "11...11"@, "......."@, "...1..."@, "...1..."@]) =~= seq![(3int, 0int), (2int, 0int), (0int, 3int), (0int, 2int), (0int, -2int), (0int, -3int), (-2int, 0int), (-3int, 0int)]);
}

proof fn lemma_builtin_13()
    ensures
        well_formed(seq!["..1.."@, ".111."@, "11.11"@, ".111."@, "..1.."@]),
        pattern_offsets(seq!["..1.."@, ".111."@, "11.11"@, ".111."@, "..1.."@]) == seq![(2int, 0int), (1int, 1int), (1int, 0int), (1int, -1int), (0int, 2int), (0int, 1int), (0int, -1int), (0int, -2int), (-1int, 1int), (-1int, 0int), (-1int, -1int), (-2int, 0int)],
{
    reveal_strlit("..1..");
    reveal_strlit(".111.");
    reveal_strlit("11.11");
    reveal_with_fuel(rows_offsets, 6);
    reveal_with_fuel(row_offsets, 6);
    assert(pattern_offsets(seq!["..1.."@, ".111."@, "11.11"@, ".111."@, "..1.."@]) =~= seq![(2int, 0int), (1int, 1int), (1int, 0int), (1int, -1int), (0int, 2int), (0int, 1int), (0int, -1int), (0int, -2int), (-1int, 1int), (-1int, 0int), (-1int, -1int), (-2int, 0int)]);
}

proof fn lemma_builtin_14()
    ensures
        well_formed(seq!["...1..."@, "...1..."@, "..111.."@, "111.111"@, "..111.."@, "...1..."@, "...1..."@]),
        pattern_offsets(seq!["...1..."@, "...1..."@, "..111.."@, "111.111"@, "..111.."@, "...1..."@, "...1..."@]) == seq![(3int, 0int), (2int, 0int), (1int, 1int), (1int, 0int), (1int, -1int), (0int, 3int), (0int, 2int), (0int, 1int), (0int, -1int), (0int, -2int), (0int, -3int), (-1int, 1int), (-1int, 0int), (-1int, -1int), (-2int, 0int), (-3int, 0int)],
{
    reveal_strlit("...1...");
    reveal_strlit("..111..");
    reveal_strlit("111.111");
    reveal_with_fuel(rows_offsets, 8);
    reveal_with_fuel(row_offsets, 8);
    assert(pattern_offsets(seq!["...1..."@, "...1..."@, "..111.."@, "111.111"@, "..111.."@, "...1..."@, "...1..."@]) =~= seq![(3int, 0int), (2int, 0int), (1int, 1int), (1int, 0int), (1int, -1int), (0int, 3int), (0int, 2int), (0int, 1int), (0int, -1int), (0int, -2int), (0int, -3int), (-1int, 1int), (-1int, 0int), (-1int, -1int), (-2int, 0int), (-3int, 0int)]);
}

proof fn lemma_builtin_15()
    ensures
        well_formed(seq!["...1..."@, "......."@, "..111.."@, "1.1.1.1"@, "..111.."@, "......."@, "...1..."@]),
        pattern_offsets(seq!["...1..."@, "......."@, "..111.."@, "1.1.1.1"@, "..111.."@, "......."@, "...1..."@]) == seq![(3int, 0int), (1int, 1int), (1int, 0int), (1int, -1int), (0int, 3int), (0int, 1int), (0int, -1int), (0int, -3int), (-1int, 1int), (-1int, 0int), (-1int, -1int), (-3int, 0int)],
{
    reveal_strlit(".......");
    reveal_strlit("...1...");
    reveal_strlit("..111..");
    reveal_strlit("1.1.1.1");
    reveal_with_fuel(rows_offsets, 8);
    reveal_with_fuel(row_offsets, 8);
    assert(pattern_offsets(seq!["...1..."@, "......."@, "..111.."@, "1.1.1.1"@, "..111.."@, "......."@, "...1..."@]) =~= seq![(3int, 0int), (1int, 1int), (1int, 0int), (1int, -1int), (0int, 3int), (0int, 1int), (0int, -1int), (0int, -3int), (-1int, 1int), (-1int, 0int), (-1int, -1int), (-3int, 0int)]);
}

proof fn lemma_builtin_16()
    ensures
        well_formed(seq!["..1.."@, ".121."@, "12.21"@, ".121."@, "..1.."@]),
        pattern_offsets(seq!["..1.."@, ".121."@, "12.21"@, ".121."@, "..1.."@]) == seq![(2int, 0int), (1int, 1int), (1int, 0int), (1int, 0int), (1int, -1int), (0int, 2int), (0int, 1int), (0int, 1int), (0int, -1int), (0int, -1int), (0int, -2int), (-1int, 1int), (-1int, 0int), (-1int, 0int), (-1int, -1int), (-2int, 0int)],
{
    reveal_strlit("..1..");
    reveal_strlit(".121.");
    reveal_strlit("12.21");
    reveal_with_fuel(rows_offsets, 6);
    reveal_with_fuel(row_offsets, 6);
    assert(pattern_offsets(seq!["..1.."@, ".121."@, "12.21"@, ".121."@, "..1.."@]) =~= seq![(2int, 0int), (1int, 1int), (1int, 0int), (1int, 0int), (1int, -1int), (0int, 2int), (0int, 1int), (0int, 1int), (0int, -1int), (0int, -1int), (0int, -2int), (-1int, 1int), (-1int, 0int), (-1int, 0int), (-1int, -1int), (-2int, 0int)]);
}

proof fn lemma_builtin_17()
    ensures
        well_formed(seq!["..1.."@, ".222."@, "12.21"@, ".222."@, "..1.."@]),
        pattern_offsets(seq!["..1.."@, ".222."@, "12.21"@, ".222."@, "..1.."@]) == seq![(2int, 0int), (1int, 1int), (1int, 1int), (1int, 0int), (1int, 0int), (1int, -1int), (1int, -1int), (0int, 2int), (0int, 1int), (0int, 1int), (0int, -1int), (0int, -1int), (0int, -2int), (-1int, 1int), (-1int, 1int), (-1int, 0int), (-1int, 0int), (-1int, -1int), (-1int, -1int), (-2int, 0int)],
{
    reveal_strlit("..1..");
    reveal_strlit(".222.");
    reveal_strlit("12.21");
    reveal_with_fuel(rows_offsets, 6);
    reveal_with_fuel(row_offsets, 6);
    assert(pattern_offsets(seq!["..1.."@, ".222."@, "12.21"@, ".222."@, "..1.."@]) =~= seq![(2int, 0int), (1int, 1int), (1int, 1int), (1int, 0int), (1int, 0int), (1int, -1int), (1int, -1int), (0int, 2int), (0int, 1int), (0int, 1int), (0int, -1int), (0int, -1int), (0int, -2int), (-1int, 1int), (-1int, 1int), (-1int, 0int), (-1int, 0int), (-1int, -1int), (-1int, -1int), (-2int, 0int)]);
}

proof fn lemma_builtin_18()
    ensures
        well_formed(seq!["..2.."@, ".111."@, "21.12"@, ".111."@, "..2.."@]),
        pattern_offsets(seq!["..2.."@, ".111."@, "21.12"@, ".111."@, "..2.."@]) == seq![(2int, 0int), (2int, 0int), (1int, 1int), (1int, 0int), (1int, -1int), (0int, 2int), (0int, 2int), (0int, 1int), (0int, -1int), (0int, -2int), (0int, -2int), (-1int, 1int), (-1int, 0int), (-1int, -1int), (-2int, 0int), (-2int, 0int)],
{
    reveal_strlit("..2..");
    reveal_strlit(".111.");
    reveal_strlit("21.12");
    reveal_with_fuel(rows_offsets, 6);
    reveal_with_fuel(row_offsets, 6);
    assert(pattern_offsets(seq!["..2.."@, ".111."@, "21.12"@, ".111."@, "..2.."@]) =~= seq![(2int, 0int), (2int, 0int), (1int, 1int), (1int, 0int), (1int, -1int), (0int, 2int), (0int, 2int), (0int, 1int), (0int, -1int), (0int, -2int), (0int, -2int), (-1int, 1int), (-1int, 0int), (-1int, -1int), (-2int, 0int), (-2int, 0int)]);
}

proof fn lemma_builtin_19()
    ensures
        well_formed(seq!["11211"@, "1.1.1"@, "21.12"@, "1.1.1"@, "11211"@]),
        pattern_offsets(seq!["11211"@, "1.1.1"@, "21.12"@, "1.1.1"@, "11211"@]) == seq![(2int, 2int), (2int, 1int), (2int, 0int), (2int, 0int), (2int, -1int), (2int, -2int), (1int, 2int), (1int, 0int), (1int, -2int), (0int, 2int), (0int, 2int), (0int, 1int), (0int, -1int), (0int, -2int), (0int, -2int), (-1int, 2int), (-1int, 0int), (-1int, -2int), (-2int, 2int), (-2int, 1int), (-2int, 0int), (-2int, 0int), (-2int, -1int), (-2int, -2int)],
{
    reveal_strlit("1.1.1");
    reveal_strlit("11211");
    reveal_strlit("21.12");
    reveal_with_fuel(rows_offsets, 6);
    reveal_with_fuel(row_offsets, 6);
    assert(pattern_offsets(seq!["11211"@, "1.1.1"@, "21.12"@, "1.1.1"@, "11211"@]) =~= seq![(2int, 2int), (2int, 1int), (2int, 0int), (2int, 0int), (2int, -1int), (2int, -2int), (1int, 2int), (1int, 0int), (1int, -2int), (0int, 2int), (0int, 2int), (0int, 1int), (0int, -1int), (0int, -2int), (0int, -2int), (-1int, 2int), (-1int, 0int), (-1int, -2int), (-2int, 2int), (-2int, 1int), (-2int, 0int), (-2int, 0int), (-2int, -1int), (-2int, -2int)]);
}

proof fn lemma_builtin_20()
    ensures
        well_formed(seq!["11211"@, "11.11"@, "2...2"@, "11.11"@, "11211"@]),
        pattern_offsets(seq!["11211"@, "11.11"@, "2...2"@, "11.11"@, "11211"@]) == seq![(2int, 2int), (2int, 1int), (2int, 0int), (2int, 0int), (2int, -1int), (2int, -2int), (1int, 2int), (1int, 1int), (1int, -1int), (1int, -2int), (0int, 2int), (0int, 2int), (0int, -2int), (0int, -2int), (-1int, 2int), (-1int, 1int), (-1int, -1int), (-1int, -2int), (-2int, 2int), (-2int, 1int), (-2int, 0int), (-2int, 0int), (-2int, -1int), (-2int, -2int)],
{
    reveal_strlit("11.11");
    reveal_strlit("11211");
    reveal_strlit("2...2");
    reveal_with_fuel(rows_offsets, 6);
    reveal_with_fuel(row_offsets, 6);
    assert(pattern_offsets(seq!["11211"@, "11.11"@, "2...2"@, "11.11"@, "11211"@]) =~= seq![(2int, 2int), (2int, 1int), (2int, 0int), (2int, 0int), (2int, -1int), (2int, -2int), (1int, 2int), (1int, 1int), (1int, -1int), (1int, -2int), (0int, 2int), (0int, 2int), (0int, -2int), (0int, -2int), (-1int, 2int), (-1int, 1int), (-1int, -1int), (-1int, -2int), (-2int, 2int), (-2int, 1int), (-2int, 0int), (-2int, 0int), (-2int, -1int), (-2int, -2int)]);
}

proof fn lemma_builtin_21()
    ensures
        well_formed(seq!["1...1"@, "..1.."@, ".1.1."@, "..1.."@, "1...1"@]),
        pattern_offsets(seq!["1...1"@, "..1.."@, ".1.1."@, "..1.."@, "1...1"@]) == seq![(2int, 2int), (2int, -2int), (1int, 0int), (0int, 1int), (0int, -1int), (-1int, 0int), (-2int, 2int), (-2int, -2int)],
{
    reveal_strlit("..1..");
    reveal_strlit(".1.1.");
    reveal_strlit("1...1");
    reveal_with_fuel(rows_offsets, 6);
    reveal_with_fuel(row_offsets, 6);
    assert(pattern_offsets(seq!["1...1"@, "..1.."@, ".1.1."@, "..1.."@, "1...1"@]) =~= seq![(2int, 2int), (2int, -2int), (1int, 0int), (0int, 1int), (0int, -1int), (-1int, 0int), (-2int, 2int), (-2int, -2int)]);
}

proof fn lemma_builtin_22()
    ensures
        well_formed(seq!["..1.."@, ".1.1."@, "1...1"@, ".1.1."@, "..1.."@]),
        pattern_offsets(seq!["..1.."@, ".1.1."@, "1...1"@, ".1.1."@, "..1.."@]) == seq![(2int, 0int), (1int, 1int), (1int, -1int), (0int, 2int), (0int, -2int), (-1int, 1int), (-1int, -1int), (-2int, 0int)],
{
    reveal_strlit("..1..");
    reveal_strlit(".1.1.");
    reveal_strlit("1...1");
    reveal_with_fuel(rows_offsets, 6);
    reveal_with_fuel(row_offsets, 6);
    assert(pattern_offsets(seq!["..1.."@, ".1.1."@, "1...1"@, ".1.1."@, "..1.."@]) =~= seq![(2int, 0int), (1int, 1int), (1int, -1int), (0int, 2int), (0int, -2int), (-1int, 1int), (-1int, -1int), (-2int, 0int)]);
}

proof fn lemma_builtin_23()
    ensures
        well_formed(seq!["11.11"@, ".1.1."@, "....."@, ".1.1."@, "11.11"@]),
        pattern_offsets(seq!["11.11"@, ".1.1."@, "....."@, ".1.1."@, "11.11"@]) == seq![(2int, 2int), (2int, 1int), (2int, -1int), (2int, -2int), (1int, 1int), (1int, -1int), (-1int, 1int), (-1int, -1int), (-2int, 2int), (-2int, 1int), (-2int, -1int), (-2int, -2int)],
{
    reveal_strlit(".....");
    reveal_strlit(".1.1.");
    reveal_strlit("11.11");
    reveal_with_fuel(rows_offsets, 6);
    reveal_with_fuel(row_offsets, 6);
    assert(pattern_offsets(seq!["11.11"@, ".1.1."@, "....."@, ".1.1."@, "11.11"@]) =~= seq![(2int, 2int), (2int, 1int), (2int, -1int), (2int, -2int), (1int, 1int), (1int, -1int), (-1int, 1int), (-1int, -1int), (-2int, 2int), (-2int, 1int), (-2int, -1int), (-2int, -2int)]);
}

proof fn lemma_builtin_24()
    ensures
        well_formed(seq![".1.1."@, "11.11"@, "....."@, "11.11"@, ".1.1."@]),
        pattern_offsets(seq![".1.1."@, "11.11"@, "....."@, "11.11"@, ".1.1."@]) == seq![(2int, 1int), (2int, -1int), (1int, 2int), (1int, 1int), (1int, -1int), (1int, -2int), (-1int, 2int), (-1int, 1int), (-1int, -1int), (-1int, -2int), (-2int, 1int), (-2int, -1int)],
{
    reveal_strlit(".....");
    reveal_strlit(".1.1.");
    reveal_strlit("11.11");
    reveal_with_fuel(rows_offsets, 6);
    reveal_with_fuel(row_offsets, 6);
    assert(pattern_offsets(seq![".1.1."@, "11.11"@, "....."@, "11.11"@, ".1.1."@]) =~= seq![(2int, 1int), (2int, -1int), (1int, 2int), (1int, 1int), (1int, -1int), (1int, -2int), (-1int, 2int), (-1int, 1int), (-1int, -1int), (-1int, -2int), (-2int, 1int), (-2int, -1int)]);
}

proof fn lemma_builtin_25()
    ensures
        well_formed(seq![".111."@, "1.1.1"@, "11.11"@, "1.1.1"@, ".111."@]),
        pattern_offsets(seq![".111."@, "1.1.1"@, "11.11"@, "1.1.1"@, ".111."@]) == seq![(2int, 1int), (2int, 0int), (2int, -1int), (1int, 2int), (1int, 0int), (1int, -2int), (0int, 2int), (0int, 1int), (0int, -1int), (0int, -2int), (-1int, 2int), (-1int, 0int), (-1int, -2int), (-2int, 1int), (-2int, 0int), (-2int, -1int)],
{
    reveal_strlit(".111.");
    reveal_strlit("1.1.1");
    reveal_strlit("11.11");
    reveal_with_fuel(rows_offsets, 6);
    reveal_with_fuel(row_offsets, 6);
    assert(pattern_offsets(seq![".111."@, "1.1.1"@, "11.11"@, "1.1.1"@, ".111."@]) =~= seq![(2int, 1int), (2int, 0int), (2int, -1int), (1int, 2int), (1int, 0int), (1int, -2int), (0int, 2int), (0int, 1int), (0int, -1int), (0int, -2int), (-1int, 2int), (-1int, 0int), (-1int, -2int), (-2int, 1int), (-2int, 0int), (-2int, -1int)]);
}

proof fn lemma_builtin_26()
    ensures
        well_formed(seq![".121."@, "1.1.1"@, "21.12"@, "1.1.1"@, ".121."@]),
        pattern_offsets(seq![".121."@, "1.1.1"@, "21.12"@, "1.1.1"@, ".121."@]) == seq![(2int, 1int), (2int, 0int), (2int, 0int), (2int, -1int), (1int, 2int), (1int, 0int), (1int, -2int), (0int, 2int), (0int, 2int), (0int, 1int), (0int, -1int), (0int, -2int), (0int, -2int), (-1int, 2int), (-1int, 0int), (-1int, -2int), (-2int, 1int), (-2int, 0int), (-2int, 0int), (-2int, -1int)],
{
    reveal_strlit(".121.");
    reveal_strlit("1.1.1");
    reveal_strlit("21.12");
    reveal_with_fuel(rows_offsets, 6);
    reveal_with_fuel(row_offsets, 6);
    assert(pattern_offsets(seq![".121."@, "1.1.1"@, "21.12"@, "1.1.1"@, ".121."@]) =~= seq![(2int, 1int), (2int, 0int), (2int, 0int), (2int, -1int), (1int, 2int), (1int, 0int), (1int, -2int), (0int, 2int), (0int, 2int), (0int, 1int), (0int, -1int), (0int, -2int), (0int, -2int), (-1int, 2int), (-1int, 0int), (-1int, -2int), (-2int, 1int), (-2int, 0int), (-2int, 0int), (-2int, -1int)]);
}

proof fn lemma_builtin_27()
    ensures
        well_formed(seq![".1.1."@, "11211"@, ".2.2."@, "11211"@, ".1.1."@]),
        pattern_offsets(seq![".1.1."@, "11211"@, ".2.2."@, "11211"@, ".1.1."@]) == seq![(2int, 1int), (2int, -1int), (1int, 2int), (1int, 1int), (1int, 0int), (1int, 0int), (1int, -1int), (1int, -2int), (0int, 1int), (0int, 1int), (0int, -1int), (0int, -1int), (-1int, 2int), (-1int, 1int), (-1int, 0int), (-1int, 0int), (-1int, -1int), (-1int, -2int), (-2int, 1int), (-2int, -1int)],
{
    reveal_strlit(".1.1.");
    reveal_strlit(".2.2.");
    reveal_strlit("11211");
    reveal_with_fuel(rows_offsets, 6);
    reveal_with_fuel(row_offsets, 6);
    assert(pattern_offsets(seq![".1.1."@, "11211"@, ".2.2."@, "11211"@, ".1.1."@]) =~= seq![(2int, 1int), (2int, -1int), (1int, 2int), (1int, 1int), (1int, 0int), (1int, 0int), (1int, -1int), (1int, -2int), (0int, 1int), (0int, 1int), (0int, -1int), (0int, -1int), (-1int, 2int), (-1int, 1int), (-1int, 0int), (-1int, 0int), (-1int, -1int), (-1int, -2int), (-2int, 1int), (-2int, -1int)]);
}

proof fn lemma_builtin_28()
    ensures
        well_formed(seq![".1.1."@, "11111"@, ".1.1."@, "11111"@, ".1.1."@]),
        pattern_offsets(seq![".1.1."@, "11111"@, ".1.1."@, "11111"@, ".1.1."@]) == seq![(2int, 1int), (2int, -1int), (1int, 2int), (1int, 1int), (1int, 0int), (1int, -1int), (1int, -2int), (0int, 1int), (0int, -1int), (-1int, 2int), (-1int, 1int), (-1int, 0int), (-1int, -1int), (-1int, -2int), (-2int, 1int), (-2int, -1int)],
{
    reveal_strlit(".1.1.");
    reveal_strlit("11111");
    reveal_with_fuel(rows_offsets, 6);
    reveal_with_fuel(row_offsets, 6);
    assert(pattern_offsets(seq![".1.1."@, "11111"@, ".1.1."@, "11111"@, ".1.1."@]) =~= seq![(2int, 1int), (2int, -1int), (1int, 2int), (1int, 1int), (1int, 0int), (1int, -1int), (1int, -2int), (0int, 1int), (0int, -1int), (-1int, 2int), (-1int, 1int), (-1int, 0int), (-1int, -1int), (-1int, -2int), (-2int, 1int), (-2int, -1int)]);
}

/// Every built-in definition is well formed and yields the displacements written out for it.
pub proof fn lemma_builtins_well_formed()
    ensures
        builtin_rows().len() == 29,
        builtin_offsets().len() == 29,
        forall|i: int|
            0 <= i < 29 ==> well_formed(#[trigger] builtin_rows()[i]) && pattern_offsets(
                builtin_rows()[i],
            ) == builtin_offsets()[i],
{
    assert forall|i: int| 0 <= i < 29 implies well_formed(#[trigger] builtin_rows()[i])
        && pattern_offsets(builtin_rows()[i]) == builtin_offsets()[i] by {
        if i == 0 {
            lemma_builtin_0();
        } else if i == 1 {
            lemma_builtin_1();
        } else if i == 2 {
            lemma_builtin_2();
        } else if i == 3 {
            lemma_builtin_3();
        } else if i == 4 {
            lemma_builtin_4();
        } else if i == 5 {
            lemma_builtin_5();
        } else if i == 6 {
            lemma_builtin_6();
        } else if i == 7 {
            lemma_builtin_7();
        } else if i == 8 {
            lemma_builtin_8();
        } else if i == 9 {
            lemma_builtin_9();
        } else if i == 10 {
            lemma_builtin_10();
        } else if i == 11 {
            lemma_builtin_11();
        } else if i == 12 {
            lemma_builtin_12();
        } else if i == 13 {
            lemma_builtin_13();
        } else if i == 14 {
            lemma_builtin_14();
        } else if i == 15 {
            lemma_builtin_15();
        } else if i == 16 {
            lemma_builtin_16();
        } else if i == 17 {
            lemma_builtin_17();
        } else if i == 18 {
            lemma_builtin_18();
        } else if i == 19 {
            lemma_builtin_19();
        } else if i == 20 {
            lemma_builtin_20();
        } else if i == 21 {
            lemma_builtin_21();
        } else if i == 22 {
            lemma_builtin_22();
        } else if i == 23 {
            lemma_builtin_23();
        } else if i == 24 {
            lemma_builtin_24();
        } else if i == 25 {
            lemma_builtin_25();
        } else if i == 26 {
            lemma_builtin_26();
        } else if i == 27 {
            lemma_builtin_27();
        } else if i == 28 {
            lemma_builtin_28();
        }
    }
}

/// The built-in names are distinct.
pub proof fn lemma_builtin_names_distinct()
    ensures
        builtin_names().len() == 29,
        forall|i: int, j: int| 0 <= i < j < 29 ==> builtin_names()[i] != builtin_names()[j],
{
    reveal_strlit("X++");
    reveal_strlit("ivy");
    reveal_strlit("+");
    reveal_strlit("x");
    reveal_strlit("o");
    reveal_strlit("O");
    reveal_strlit("xO");
    reveal_strlit("o+");
    reveal_strlit("oo");
    reveal_strlit("ox");
    reveal_strlit("++");
    reveal_strlit("+++");
    reveal_strlit("+_+");
    reveal_strlit("o++");
    reveal_strlit("o+++");
    reveal_strlit("o_+");
    reveal_strlit("o-+");
    reveal_strlit("o-+x");
    reveal_strlit("o=+");
    reveal_strlit("+o");
    reveal_strlit("xo");
    reveal_strlit("+x");
    reveal_strlit("x+");
    reveal_strlit("::");
    reveal_strlit(";;");
    reveal_strlit("Y");
    reveal_strlit("Y+");
    reveal_strlit("H");
    reveal_strlit("sh");
    assert forall|i: int, j: int| 0 <= i < j < 29 implies builtin_names()[i] != builtin_names()[j] by {
        let a = builtin_names()[i];
        let b = builtin_names()[j];
        if a.len() == b.len() {
            assert(a[0] != b[0] || a[1] != b[1] || a[2] != b[2] || a[3] != b[3]);
        }
    }
}

/// The definitions of the built-in patterns.
pub fn definitions() -> (r: Vec<(&'static str, Vec<&'static str>)>)
    ensures
        r@.len() == 29,
        def_names(r@) == builtin_names(),
        forall|i: int| 0 <= i < 29 ==> rows_view(#[trigger] r@[i].1@) == builtin_rows()[i],
{
    let r = vec![
        ("X++", vec!["..1..", ".313.", "11.11", ".313.", "..1.."]),
        ("ivy", vec!["121", "222", "121"]),
        ("+", vec![".1.", "1.1", ".1."]),
        ("x", vec!["1.1", "...", "1.1"]),
        ("o", vec!["111", "1.1", "111"]),
        ("O", vec!["11111", "1...1", "1...1", "1...1", "11111"]),
        ("xO", vec!["11111", "11.11", "1...1", "11.11", "11111"]),
        ("o+", vec!["121", "2.2", "121"]),
        ("oo", vec!["11211", "11111", "21.12", "11111", "11211"]),
        ("ox", vec!["212", "1.1", "212"]),
        ("++", vec!["..1..", "..1..", "11.11", "..1..", "..1.."]),
        ("+++", vec!["..2..", "..1..", "21.12", "..1..", "..2.."]),
        ("+_+", vec!["...1...", "...1...", ".......", "11...11", ".......", "...1...", "...1..."]),
        ("o++", vec!["..1..", ".111.", "11.11", ".111.", "..1.."]),
        ("o+++", vec!["...1...", "...1...", "..111..", "111.111", "..111..", "...1...", "...1..."]),
        ("o_+", vec!["...1...", ".......", "..111..", "1.1.1.1", "..111..", ".......", "...1..."]),
        ("o-+", vec!["..1..", ".121.", "12.21", ".121.", "..1.."]),
        ("o-+x", vec!["..1..", ".222.", "12.21", ".222.", "..1.."]),
        ("o=+", vec!["..2..", ".111.", "21.12", ".111.", "..2.."]),
        ("+o", vec!["11211", "1.1.1", "21.12", "1.1.1", "11211"]),
        ("xo", vec!["11211", "11.11", "2...2", "11.11", "11211"]),
        ("+x", vec!["1...1", "..1..", ".1.1.", "..1..", "1...1"]),
        ("x+", vec!["..1..", ".1.1.", "1...1", ".1.1.", "..1.."]),
        ("::", vec!["11.11", ".1.1.", ".....", ".1.1.", "11.11"]),
        (";;", vec![".1.1.", "11.11", ".....", "11.11", ".1.1."]),
        ("Y", vec![".111.", "1.1.1", "11.11", "1.1.1", ".111."]),
        ("Y+", vec![".121.", "1.1.1", "21.12", "1.1.1", ".121."]),
        ("H", vec![".1.1.", "11211", ".2.2.", "11211", ".1.1."]),
        ("sh", vec![".1.1.", "11111", ".1.1.", "11111", ".1.1."]),
    ];
    proof {
        assert(def_names(r@) =~= builtin_names());
        assert forall|i: int| 0 <= i < 29 implies rows_view(#[trigger] r@[i].1@) == builtin_rows()[i] by {
            if i == 0 {
                assert(r@[0].1@ == seq!["..1..", ".313.", "11.11", ".313.", "..1.."]);
                assert(rows_view(r@[0].1@) =~= builtin_rows()[0]);
            } else if i == 1 {
                assert(r@[1].1@ == seq!["121", "222", "121"]);
                assert(rows_view(r@[1].1@) =~= builtin_rows()[1]);
            } else if i == 2 {
                assert(r@[2].1@ == seq![".1.", "1.1", ".1."]);
                assert(rows_view(r@[2].1@) =~= builtin_rows()[2]);
            } else if i == 3 {
                assert(r@[3].1@ == seq!["1.1", "...", "1.1"]);
                assert(rows_view(r@[3].1@) =~= builtin_rows()[3]);
            } else if i == 4 {
                assert(r@[4].1@ == seq!["111", "1.1", "111"]);
                assert(rows_view(r@[4].1@) =~= builtin_rows()[4]);
            } else if i == 5 {
                assert(r@[5].1@ == seq!["11111", "1...1", "1...1", "1...1", "11111"]);
                assert(rows_view(r@[5].1@) =~= builtin_rows()[5]);
            } else if i == 6 {
                assert(r@[6].1@ == seq!["11111", "11.11", "1...1", "11.11", "11111"]);
                assert(rows_view(r@[6].1@) =~= builtin_rows()[6]);
            } else if i == 7 {
                assert(r@[7].1@ == seq!["121", "2.2", "121"]);
                assert(rows_view(r@[7].1@) =~= builtin_rows()[7]);
            } else if i == 8 {
                assert(r@[8].1@ == seq!["11211", "11111", "21.12", "11111", "11211"]);
                assert(rows_view(r@[8].1@) =~= builtin_rows()[8]);
            } else if i == 9 {
                assert(r@[9].1@ == seq!["212", "1.1", "212"]);
                assert(rows_view(r@[9].1@) =~= builtin_rows()[9]);
            } else if i == 10 {
                assert(r@[10].1@ == seq!["..1..", "..1..", "11.11", "..1..", "..1.."]);
                assert(rows_view(r@[10].1@) =~= builtin_rows()[10]);
            } else if i == 11 {
                assert(r@[11].1@ == seq!["..2..", "..1..", "21.12", "..1..", "..2.."]);
                assert(rows_view(r@[11].1@) =~= builtin_rows()[11]);
            } else if i == 12 {
                assert(r@[12].1@ == seq!["...1...", "...1...", ".......", "11...11", ".......", "...1...", "...1..."]);
                assert(rows_view(r@[12].1@) =~= builtin_rows()[12]);
            } else if i == 13 {
                assert(r@[13].1@ == seq!["..1..", ".111.", "11.11", ".111.", "..1.."]);
                assert(rows_view(r@[13].1@) =~= builtin_rows()[13]);
            } else if i == 14 {
                assert(r@[14].1@ == seq!["...1...", "...1...", "..111..", "111.111", "..111..", "...1...", "...1..."]);
                assert(rows_view(r@[14].1@) =~= builtin_rows()[14]);
            } else if i == 15 {
                assert(r@[15].1@ == seq!["...1...", ".......", "..111..", "1.1.1.1", "..111..", ".......", "...1..."]);
                assert(rows_view(r@[15].1@) =~= builtin_rows()[15]);
            } else if i == 16 {
                assert(r@[16].1@ == seq!["..1..", ".121.", "12.21", ".121.", "..1.."]);
                assert(rows_view(r@[16].1@) =~= builtin_rows()[16]);
            } else if i == 17 {
                assert(r@[17].1@ == seq!["..1..", ".222.", "12.21", ".222.", "..1.."]);
                assert(rows_view(r@[17].1@) =~= builtin_rows()[17]);
            } else if i == 18 {
                assert(r@[18].1@ == seq!["..2..", ".111.", "21.12", ".111.", "..2.."]);
                assert(rows_view(r@[18].1@) =~= builtin_rows()[18]);
            } else if i == 19 {
                assert(r@[19].1@ == seq!["11211", "1.1.1", "21.12", "1.1.1", "11211"]);
                assert(rows_view(r@[19].1@) =~= builtin_rows()[19]);
            } else if i == 20 {
                assert(r@[20].1@ == seq!["11211", "11.11", "2...2", "11.11", "11211"]);
                assert(rows_view(r@[20].1@) =~= builtin_rows()[20]);
            } else if i == 21 {
                assert(r@[21].1@ == seq!["1...1", "..1..", ".1.1.", "..1..", "1...1"]);
                assert(rows_view(r@[21].1@) =~= builtin_rows()[21]);
            } else if i == 22 {
                assert(r@[22].1@ == seq!["..1..", ".1.1.", "1...1", ".1.1.", "..1.."]);
                assert(rows_view(r@[22].1@) =~= builtin_rows()[22]);
            } else if i == 23 {
                assert(r@[23].1@ == seq!["11.11", ".1.1.", ".....", ".1.1.", "11.11"]);
                assert(rows_view(r@[23].1@) =~= builtin_rows()[23]);
            } else if i == 24 {
                assert(r@[24].1@ == seq![".1.1.", "11.11", ".....", "11.11", ".1.1."]);
                assert(rows_view(r@[24].1@) =~= builtin_rows()[24]);
            } else if i == 25 {
                assert(r@[25].1@ == seq![".111.", "1.1.1", "11.11", "1.1.1", ".111."]);
                assert(rows_view(r@[25].1@) =~= builtin_rows()[25]);
            } else if i == 26 {
                assert(r@[26].1@ == seq![".121.", "1.1.1", "21.12", "1.1.1", ".121."]);
                assert(rows_view(r@[26].1@) =~= builtin_rows()[26]);
            } else if i == 27 {
                assert(r@[27].1@ == seq![".1.1.", "11211", ".2.2.", "11211", ".1.1."]);
                assert(rows_view(r@[27].1@) =~= builtin_rows()[27]);
            } else if i == 28 {
                assert(r@[28].1@ == seq![".1.1.", "11111", ".1.1.", "11111", ".1.1."]);
                assert(rows_view(r@[28].1@) =~= builtin_rows()[28]);
            }
        }
    }
    r
}

/// The catalog of built-in patterns, with the displacements written out in
/// `builtin_offsets`.
pub fn patterns() -> (r: Result<Catalog, GridError>)
    ensures
        r matches Ok(c) && {
            &&& c.wf()
            &&& c.names_view() == builtin_names()
            &&& c.offsets_view().len() == 29
            &&& forall|i: int|
                0 <= i < 29 ==> offsets_of(#[trigger] c.offsets_view()[i]) == builtin_offsets()[i]
            &&& forall|i: int| 0 <= i < 29 ==> c.pattern_of(#[trigger] builtin_names()[i]) == c.offsets_view()[i]
        },
{
    let defs = definitions();
    proof {
        lemma_builtins_well_formed();
        lemma_builtin_names_distinct();
        assert forall|i: int| 0 <= i < defs@.len() implies well_formed(
            rows_view(#[trigger] defs@[i].1@),
        ) by {}
        assert forall|i: int, j: int| 0 <= i < j < defs@.len() implies defs@[i].0@ != defs@[j].0@ by {
            assert(def_names(defs@)[i] == defs@[i].0@);
            assert(def_names(defs@)[j] == defs@[j].0@);
        }
    }
    let r = catalog_from(&defs);
    proof {
        if r is Ok {
            let c = r->Ok_0;
            assert forall|i: int| 0 <= i < 29 implies offsets_of(#[trigger] c.offsets_view()[i])
                == builtin_offsets()[i] by {
                assert(well_formed(rows_view(defs@[i].1@)));
            }
            assert forall|i: int| 0 <= i < 29 implies c.pattern_of(#[trigger] builtin_names()[i])
                == c.offsets_view()[i] by {
                c.lemma_pattern_of(i);
            }
        }
    }
    r
}

} // verus!
