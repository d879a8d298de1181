//! A sparse tile grid: columns keyed by `x`, each holding tiles keyed by `y`.
use vstd::prelude::*;
use std::collections::HashMap;
use crate::coord::Coord;

verus! {

broadcast use vstd::std_specs::hash::group_hash_axioms;

/// Tiles of type `T` placed at integer coordinates.
#[derive(Debug, PartialEq)]
pub struct Grid<T> {
    grid: HashMap<i32, HashMap<i32, T>>,
}

/// The tiles of a list given in order, where a later tile at the same place
/// replaces an earlier one.
pub open spec fn tiles_of<T>(tiles: Seq<(Coord, T)>) -> Map<Coord, T>
    decreases tiles.len(),
{
    if tiles.len() == 0 {
        Map::empty()
    } else {
        let last = tiles.last();
        tiles_of(tiles.drop_last()).insert(last.0, last.1)
    }
}

/// Relies on `HashMap::get_mut`: a mutable borrow of the value stored under `key`, if
/// there is one; what is written through it is what the map then holds there.
#[verifier::external_body]
fn column_get_mut<V>(m: &mut HashMap<i32, V>, key: i32) -> (r: Option<&mut V>)
    ensures
        old(m)@.contains_key(key) ==> r is Some && *r->Some_0 == old(m)@[key] && final(m)@
            == old(m)@.insert(key, *final(r->Some_0)),
        !old(m)@.contains_key(key) ==> r is None && final(m)@ == old(m)@,
{
    m.get_mut(&key)
}

/// The grid's order of coordinates: by `x`, then by `y`.
pub open spec fn coord_lt(a: Coord, b: Coord) -> bool {
    a.x < b.x || (a.x == b.x && a.y < b.y)
}

/// Entries in strictly increasing coordinate order (so no coordinate twice).
pub open spec fn sorted_by_coord<V>(s: Seq<(Coord, V)>) -> bool {
    forall|i: int, j: int| 0 <= i < j < s.len() ==> coord_lt(#[trigger] s[i].0, #[trigger] s[j].0)
}

/// Some entry of `s` is at `c`.
pub open spec fn has_coord<V>(s: Seq<(Coord, V)>, c: Coord) -> bool {
    exists|i: int| 0 <= i < s.len() && (#[trigger] s[i]).0 == c
}

/// Each entry of `s` is a tile of `m`, with its value.
pub open spec fn entries_of<T>(s: Seq<(Coord, &T)>, m: Map<Coord, T>) -> bool {
    forall|i: int|
        0 <= i < s.len() ==> m.contains_key((#[trigger] s[i]).0) && *s[i].1 == m[s[i].0]
}

fn coord_before(a: &Coord, b: &Coord) -> (r: bool)
    ensures
        r == coord_lt(*a, *b),
{
    a.x < b.x || (a.x == b.x && a.y < b.y)
}

/// Puts `(c, v)` in its place in the sorted `out`, replacing an entry at `c`.
fn insert_sorted<V>(out: &mut Vec<(Coord, V)>, c: Coord, v: V)
    requires
        sorted_by_coord(old(out)@),
    ensures
        sorted_by_coord(final(out)@),
        has_coord(final(out)@, c),
        forall|d: Coord| has_coord(old(out)@, d) ==> has_coord(final(out)@, d),
        forall|i: int|
            0 <= i < final(out)@.len() ==> (#[trigger] final(out)@[i]) == (c, v) || old(
                out,
            )@.contains(final(out)@[i]),
{
    let mut p: usize = 0;
    while p < out.len() && coord_before(&out[p].0, &c)
        invariant
            p <= out@.len(),
            forall|i: int| 0 <= i < p ==> coord_lt((#[trigger] out@[i]).0, c),
        decreases out@.len() - p,
    {
        p = p + 1;
    }
    let ghost before = out@;
    if p < out.len() && out[p].0.x == c.x && out[p].0.y == c.y {
        out[p] = (c, v);
        proof {
            assert(out@ == before.update(p as int, (c, v)));
            assert(out@[p as int] == (c, v));
            assert forall|d: Coord| has_coord(before, d) implies has_coord(out@, d) by {
                let i = choose|i: int| 0 <= i < before.len() && (#[trigger] before[i]).0 == d;
                assert(out@[i].0 == d);
            }
            assert forall|i: int| 0 <= i < out@.len() implies (#[trigger] out@[i]) == (c, v)
                || before.contains(out@[i]) by {
                if i != p {
                    assert(before[i] == out@[i]);
                }
            }
        }
    } else {
        out.insert(p, (c, v));
        proof {
            assert(out@ == before.insert(p as int, (c, v)));
            assert(out@[p as int] == (c, v));
            assert forall|d: Coord| has_coord(before, d) implies has_coord(out@, d) by {
                let i = choose|i: int| 0 <= i < before.len() && (#[trigger] before[i]).0 == d;
                if i < p {
                    assert(out@[i].0 == d);
                } else {
                    assert(out@[i + 1].0 == d);
                }
            }
            assert forall|i: int| 0 <= i < out@.len() implies (#[trigger] out@[i]) == (c, v)
                || before.contains(out@[i]) by {
                if i < p {
                    assert(before[i] == out@[i]);
                } else if i > p {
                    assert(before[i - 1] == out@[i]);
                }
            }
            assert forall|i: int, j: int| 0 <= i < j < out@.len() implies coord_lt(
                #[trigger] out@[i].0,
                #[trigger] out@[j].0,
            ) by {
                if p < before.len() {
                    assert(!coord_lt(before[p as int].0, c));
                }
                if i < p && j > p {
                    assert(coord_lt(before[i].0, c));
                }
            }
        }
    }
}

impl<T> Grid<T> {
    /// The tiles of the grid, by coordinate.
    pub closed spec fn tiles(&self) -> Map<Coord, T> {
        Map::new(
            |c: Coord| self.grid@.contains_key(c.x) && self.grid@[c.x]@.contains_key(c.y),
            |c: Coord| self.grid@[c.x]@[c.y],
        )
    }

    /// The grid's columns, keyed by `x`, each keyed by `y`.
    pub fn columns(&self) -> (r: &HashMap<i32, HashMap<i32, T>>)
        ensures
            forall|c: Coord| #[trigger]
                self.tiles().contains_key(c) <==> r@.contains_key(c.x) && r@[c.x]@.contains_key(c.y),
            forall|c: Coord| #[trigger]
                self.tiles().contains_key(c) ==> self.tiles()[c] == r@[c.x]@[c.y],
    {
        &self.grid
    }

    /// Places `tile` at `coord`, replacing the tile that was there.
    pub fn insert(&mut self, coord: Coord, tile: T)
        ensures
            final(self).tiles() == old(self).tiles().insert(coord, tile),
    {
        let x = coord.x;
        let y = coord.y;
        let ghost before = self.tiles();
        let column = self.grid.remove(&x);
        match column {
            Some(mut col) => {
                col.insert(y, tile);
                self.grid.insert(x, col);
            },
            None => {
                let mut col: HashMap<i32, T> = HashMap::new();
                col.insert(y, tile);
                self.grid.insert(x, col);
            },
        }
        assert(self.tiles() =~= before.insert(coord, tile));
    }

    /// The tile at `coord`, if there is one.
    pub fn get(&self, coord: Coord) -> (r: Option<&T>)
        ensures
            match r {
                Some(t) => self.tiles().contains_key(coord) && *t == self.tiles()[coord],
                None => !self.tiles().contains_key(coord),
            },
    {
        match self.grid.get(&coord.x) {
            Some(col) => col.get(&coord.y),
            None => None,
        }
    }

    /// A mutable borrow of the tile at `coord`, if there is one; the grid then holds
    /// whatever is written through it.
    pub fn get_mut(&mut self, coord: Coord) -> (r: Option<&mut T>)
        ensures
            old(self).tiles().contains_key(coord) ==> r is Some && *r->Some_0 == old(
                self,
            ).tiles()[coord] && final(self).tiles() == old(self).tiles().insert(
                coord,
                *final(r->Some_0),
            ),
            !old(self).tiles().contains_key(coord) ==> r is None && final(self).tiles() == old(
                self,
            ).tiles(),
    {
        match column_get_mut(&mut self.grid, coord.x) {
            Some(col) => column_get_mut(col, coord.y),
            None => None,
        }
    }

    /// A grid holding the given tiles; where two share a place, the later one stays.
    pub fn new(tiles: Vec<(Coord, T)>) -> (r: Grid<T>)
        ensures
            r.tiles() == tiles_of(tiles@),
    {
        let mut grid = Grid { grid: HashMap::new() };
        assert(grid.tiles() =~= tiles_of(Seq::<(Coord, T)>::empty()));
        let mut rest = tiles;
        let ghost mut placed: Seq<(Coord, T)> = Seq::empty();
        let ghost all = rest@;
        while rest.len() > 0
            invariant
                placed + rest@ == all,
                grid.tiles() == tiles_of(placed),
            decreases rest.len(),
        {
            let (coord, tile) = rest.remove(0);
            let ghost entry = (coord, tile);
            proof {
                assert(placed.push(entry) + rest@ =~= all);
                assert(placed.push(entry).drop_last() =~= placed);
            }
            grid.insert(coord, tile);
            proof {
                placed = placed.push(entry);
            }
        }
        assert(placed =~= all);
        grid
    }

    /// The tiles with their coordinates, in coordinate order.
    pub fn to_ref_vec(&self) -> (r: Vec<(Coord, &T)>)
        ensures
            sorted_by_coord(r@),
            entries_of(r@, self.tiles()),
            forall|c: Coord| #[trigger] self.tiles().contains_key(c) ==> has_coord(r@, c),
    {
        let mut out: Vec<(Coord, &T)> = Vec::new();
        for (x, col) in it: self.grid.iter()
            invariant
                sorted_by_coord(out@),
                entries_of(out@, self.tiles()),
                forall|c: Coord| #[trigger]
                    self.tiles().contains_key(c) ==> has_coord(out@, c) || exists|j: int|
                        it.index() <= j < it.seq().len() && *it.seq()[j].0 == c.x,
        {
            assert(self.grid@.contains_key(*x) && self.grid@[*x] == *col);
            for (y, t) in it2: col.iter()
                invariant
                    sorted_by_coord(out@),
                    entries_of(out@, self.tiles()),
                    self.grid@.contains_key(*x),
                    self.grid@[*x] == *col,
                    forall|c: Coord| #[trigger]
                        self.tiles().contains_key(c) ==> has_coord(out@, c) || (c.x == *x
                            && exists|j2: int|
                            it2.index() <= j2 < it2.seq().len() && *it2.seq()[j2].0 == c.y)
                            || exists|j: int| it.index() < j < it.seq().len() && *it.seq()[j].0 == c.x,
            {
                let c = Coord { x: *x, y: *y };
                assert(col@.contains_key(*y) && col@[*y] == *t);
                let ghost before = out@;
                insert_sorted(&mut out, c, t);
                proof {
                    assert forall|i: int| 0 <= i < out@.len() implies self.tiles().contains_key(
                        (#[trigger] out@[i]).0,
                    ) && *out@[i].1 == self.tiles()[out@[i].0] by {
                        if out@[i] != (c, t) {
                            let k = choose|k: int| 0 <= k < before.len() && before[k] == out@[i];
                            assert(self.tiles().contains_key(before[k].0));
                        }
                    }
                    assert forall|d: Coord| #[trigger]
                        self.tiles().contains_key(d) implies has_coord(out@, d) || (d.x == *x
                            && exists|j2: int|
                            it2.index() + 1 <= j2 < it2.seq().len() && *it2.seq()[j2].0 == d.y)
                            || exists|j: int| it.index() < j < it.seq().len() && *it.seq()[j].0 == d.x by {
                        if !has_coord(before, d) && d.x == *x && exists|j2: int|
                            it2.index() <= j2 < it2.seq().len() && *it2.seq()[j2].0 == d.y {
                            let j2 = choose|j2: int|
                                it2.index() <= j2 < it2.seq().len() && *it2.seq()[j2].0 == d.y;
                            if j2 == it2.index() {
                                assert(d == c);
                            }
                        }
                    }
                }
            }
            proof {
                assert forall|d: Coord| #[trigger]
                    self.tiles().contains_key(d) implies has_coord(out@, d) || exists|j: int|
                        it.index() + 1 <= j < it.seq().len() && *it.seq()[j].0 == d.x by {
                }
            }
        }
        out
    }

    /// The tiles keyed by their coordinates. What a `HashMap` keyed by `Coord` holds
    /// can only be stated where `Coord` follows the key model of hashed maps.
    pub fn flatten(&self) -> (r: HashMap<Coord, T>)
        where
            T: Copy,
        ensures
            vstd::std_specs::hash::obeys_key_model::<Coord>() ==> r@ == self.tiles(),
    {
        let entries = self.to_ref_vec();
        let mut flat_grid: HashMap<Coord, T> = HashMap::new();
        let mut i: usize = 0;
        while i < entries.len()
            invariant
                i <= entries@.len(),
                entries_of(entries@, self.tiles()),
                vstd::std_specs::hash::obeys_key_model::<Coord>() ==> {
                    &&& forall|c: Coord| #[trigger]
                        flat_grid@.contains_key(c) ==> self.tiles().contains_key(c)
                            && flat_grid@[c] == self.tiles()[c]
                    &&& forall|j: int| 0 <= j < i ==> flat_grid@.contains_key(
                        (#[trigger] entries@[j]).0,
                    )
                },
            decreases entries@.len() - i,
        {
            let (c, t) = entries[i];
            flat_grid.insert(c, *t);
            i = i + 1;
        }
        proof {
            if vstd::std_specs::hash::obeys_key_model::<Coord>() {
                assert forall|c: Coord| #[trigger]
                    self.tiles().contains_key(c) implies flat_grid@.contains_key(c) by {
                    let j = choose|j: int| 0 <= j < entries@.len() && (#[trigger] entries@[j]).0 == c;
                }
                assert(flat_grid@ =~= self.tiles());
            }
        }
        flat_grid
    }
}

} // verus!



