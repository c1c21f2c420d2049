use vstd::prelude::*;

verus! {

broadcast use vstd::seq::group_seq_axioms;

/// The kind of link between two particles.
#[derive(Debug, Clone, Copy, PartialEq, Eq, Structural)]
pub enum ConnectionType {
    /// A spring pulls when stretched and pushes when compressed (Hooke's law).
    Spring,
    /// A rope only pulls, and only while it is stretched.
    Rope,
}

impl ConnectionType {
    /// The label shown for this kind of link.
    pub open spec fn label(self) -> Seq<char> {
        match self {
            ConnectionType::Spring => "弹簧"@,
            ConnectionType::Rope => "绳子"@,
        }
    }

    pub fn display_name(&self) -> (name: &'static str)
        ensures
            name@ == self.label(),
            name@ == match *self {
                ConnectionType::Spring => "弹簧"@,
                ConnectionType::Rope => "绳子"@,
            },
    {
        match self {
            ConnectionType::Spring => "弹簧",
            ConnectionType::Rope => "绳子",
        }
    }
}

/// A link between the particles at indices `particle_a` and `particle_b`.
///
/// The rest length and the stiffness are physical quantities; the library only
/// carries them, as the IEEE-754 bit patterns of the `f64` values, and never
/// computes with them.
#[derive(Debug, Clone, Copy, PartialEq, Eq, Structural)]
pub struct Connection {
    pub particle_a: usize,
    pub particle_b: usize,
    pub rest_length_bits: u64,
    pub stiffness_bits: u64,
    pub connection_type: ConnectionType,
}

/// Whether connection `c` has particle `p` as one of its two ends.
pub open spec fn touches(c: Connection, p: usize) -> bool {
    c.particle_a == p || c.particle_b == p
}

/// The predicate "does not touch `p`", as a value that `Seq::filter` takes.
pub open spec fn untouched_by(p: usize) -> spec_fn(Connection) -> bool {
    |c: Connection| !touches(c, p)
}

/// The predicate "touches `p`", as a value that `Seq::filter` takes.
pub open spec fn touched_by(p: usize) -> spec_fn(Connection) -> bool {
    |c: Connection| touches(c, p)
}

/// The new index of particle `i` once particle `removed` is taken out of the
/// particle list: every later particle moves down by one.
pub open spec fn shifted_index(i: usize, removed: usize) -> usize {
    if i > removed {
        (i - 1) as usize
    } else {
        i
    }
}

/// Connection `c` with both ends renumbered after the removal of particle `removed`.
pub open spec fn renumbered(c: Connection, removed: usize) -> Connection {
    Connection {
        particle_a: shifted_index(c.particle_a, removed),
        particle_b: shifted_index(c.particle_b, removed),
        rest_length_bits: c.rest_length_bits,
        stiffness_bits: c.stiffness_bits,
        connection_type: c.connection_type,
    }
}

/// Renumbering after the removal of particle `removed`, as a value that
/// `Seq::map_values` takes.
pub open spec fn renumbering(removed: usize) -> spec_fn(Connection) -> Connection {
    |c: Connection| renumbered(c, removed)
}

/// The positions, in increasing order, of the connections in `s` that touch `p`.
pub open spec fn touching_indices(s: Seq<Connection>, p: usize) -> Seq<usize>
    decreases s.len(),
{
    if s.len() == 0 {
        Seq::empty()
    } else {
        let prev = touching_indices(s.drop_last(), p);
        if touches(s.last(), p) {
            prev.push((s.len() - 1) as usize)
        } else {
            prev
        }
    }
}

/// Every end of every connection in `s` is a valid index into a list of `n` particles.
pub open spec fn ends_in_range(s: Seq<Connection>, n: nat) -> bool {
    forall|j: int|
        0 <= j < s.len() ==> (#[trigger] s[j]).particle_a < n && s[j].particle_b < n
}

/// The set of connections between particles.
#[derive(Debug, Clone)]
pub struct Connections {
    pub list: Vec<Connection>,
}

impl View for Connections {
    type V = Seq<Connection>;

    open spec fn view(&self) -> Seq<Connection> {
        self.list@
    }
}

/// A sequence splits into the elements that satisfy a predicate and those that do not.
proof fn lemma_filter_split_len(s: Seq<Connection>, p: usize)
    ensures
        s.filter(untouched_by(p)).len() + s.filter(touched_by(p)).len() == s.len(),
    decreases s.len(),
{
    if s.len() > 0 {
        let init = s.drop_last();
        lemma_filter_split_len(init, p);
        assert(init.push(s.last()) =~= s);
        init.lemma_filter_push(s.last(), untouched_by(p));
        init.lemma_filter_push(s.last(), touched_by(p));
    } else {
        reveal(Seq::filter);
    }
}

/// `touching_indices` lists exactly as many positions as there are touching connections.
proof fn lemma_touching_indices_len(s: Seq<Connection>, p: usize)
    ensures
        touching_indices(s, p).len() == s.filter(touched_by(p)).len(),
    decreases s.len(),
{
    if s.len() > 0 {
        let init = s.drop_last();
        lemma_touching_indices_len(init, p);
        assert(init.push(s.last()) =~= s);
        init.lemma_filter_push(s.last(), touched_by(p));
    } else {
        reveal(Seq::filter);
    }
}

/// The positions listed by `touching_indices` are in range, strictly increasing,
/// and are exactly the positions of the connections that touch `p`.
pub proof fn lemma_touching_indices_exact(s: Seq<Connection>, p: usize)
    requires
        s.len() <= usize::MAX,
    ensures
        forall|k: int|
            0 <= k < touching_indices(s, p).len() ==> {
                &&& (#[trigger] touching_indices(s, p)[k]) < s.len()
                &&& s[touching_indices(s, p)[k] as int].particle_a == p
                    || s[touching_indices(s, p)[k] as int].particle_b == p
            },
        forall|k1: int, k2: int|
            0 <= k1 < k2 < touching_indices(s, p).len() ==> #[trigger] touching_indices(s, p)[k1]
                < #[trigger] touching_indices(s, p)[k2],
        forall|j: int|
            0 <= j < s.len() && ((#[trigger] s[j]).particle_a == p || s[j].particle_b == p)
                ==> touching_indices(s, p).contains(j as usize),
    decreases s.len(),
{
    if s.len() > 0 {
        let init = s.drop_last();
        lemma_touching_indices_exact(init, p);
        let prev = touching_indices(init, p);
        let cur = touching_indices(s, p);
        assert forall|k: int| 0 <= k < cur.len() implies (#[trigger] cur[k]) < s.len() && touches(
            s[cur[k] as int],
            p,
        ) by {
            if k < prev.len() {
                assert(cur[k] == prev[k]);
                assert(s[prev[k] as int] == init[prev[k] as int]);
            }
        }
        assert forall|j: int|
            0 <= j < s.len() && ((#[trigger] s[j]).particle_a == p || s[j].particle_b == p) implies cur.contains(
            j as usize,
        ) by {
            if j < s.len() - 1 {
                assert(init[j] == s[j]);
                assert(prev.contains(j as usize));
                let w = choose|w: int| 0 <= w < prev.len() && prev[w] == j as usize;
                assert(cur[w] == prev[w]);
            } else {
                assert(cur[cur.len() - 1] == j as usize);
            }
        }
    }
}

/// After removing every connection that touches particle `k` and renumbering the
/// rest for the removal of particle `k`, all ends are valid indices into the
/// particle list that is one shorter.
pub proof fn lemma_removal_keeps_ends_in_range(s: Seq<Connection>, n: nat, k: usize)
    requires
        ends_in_range(s, n),
        k < n,
    ensures
        ends_in_range(s.filter(untouched_by(k)).map_values(renumbering(k)), (n - 1) as nat),
{
    let kept = s.filter(untouched_by(k));
    let out = kept.map_values(renumbering(k));
    assert forall|j: int| 0 <= j < out.len() implies (#[trigger] out[j]).particle_a < n - 1
        && out[j].particle_b < n - 1 by {
        s.lemma_filter_pred(untouched_by(k), j);
        let c = kept[j];
        assert(kept.contains(c));
        s.lemma_filter_contains_rev(untouched_by(k), c);
        let w = choose|w: int| 0 <= w < s.len() && s[w] == c;
        assert(s[w].particle_a < n && s[w].particle_b < n);
    }
}

/// Every connection either keeps particle `p` at neither end or has it at one
/// of its ends, so the removed and the kept connections together are all of them.
pub proof fn lemma_removed_and_kept_partition(s: Seq<Connection>, p: usize)
    ensures
        s.filter(|c: Connection| c.particle_a != p && c.particle_b != p).len() + s.filter(
            |c: Connection| c.particle_a == p || c.particle_b == p,
        ).len() == s.len(),
{
    lemma_filter_split_len(s, p);
    assert(untouched_by(p) =~= (|c: Connection| c.particle_a != p && c.particle_b != p));
    assert(touched_by(p) =~= (|c: Connection| c.particle_a == p || c.particle_b == p));
}

/// A renumbered connection that did not touch the removed particle still links
/// the same two particles: each new end, moved back up by one when it is at or
/// above the removed index, is the old end; the other fields are unchanged.
pub proof fn lemma_renumbered_tracks_particles(c: Connection, removed: usize)
    requires
        c.particle_a != removed,
        c.particle_b != removed,
    ensures
        (if renumbered(c, removed).particle_a >= removed {
            renumbered(c, removed).particle_a + 1
        } else {
            renumbered(c, removed).particle_a as int
        }) == c.particle_a,
        (if renumbered(c, removed).particle_b >= removed {
            renumbered(c, removed).particle_b + 1
        } else {
            renumbered(c, removed).particle_b as int
        }) == c.particle_b,
        renumbered(c, removed).rest_length_bits == c.rest_length_bits,
        renumbered(c, removed).stiffness_bits == c.stiffness_bits,
        renumbered(c, removed).connection_type == c.connection_type,
{
}

/// Renumbering after a removal never merges two different surviving particles,
/// and every surviving particle can be traced back to its old index.
pub proof fn lemma_shifted_index_injective(i: usize, j: usize, removed: usize)
    requires
        i != removed,
        j != removed,
    ensures
        (shifted_index(i, removed) == shifted_index(j, removed)) <==> (i == j),
        (if shifted_index(i, removed) >= removed {
            shifted_index(i, removed) + 1
        } else {
            shifted_index(i, removed) as int
        }) == i,
{
}

impl Connections {
    pub fn new() -> (conns: Self)
        ensures
            conns@ == Seq::<Connection>::empty(),
    {
        Connections { list: Vec::new() }
    }

    /// Appends a new connection.
    pub fn add(&mut self, conn: Connection)
        ensures
            final(self)@ == old(self)@.push(conn),
    {
        self.list.push(conn);
    }

    /// Removes the connection at `index`; returns whether there was one.
    pub fn remove(&mut self, index: usize) -> (removed: bool)
        ensures
            removed == (index < old(self)@.len()),
            removed ==> final(self)@ == old(self)@.remove(index as int),
            !removed ==> final(self)@ == old(self)@,
    {
        if index < self.list.len() {
            self.list.remove(index);
            true
        } else {
            false
        }
    }

    /// Removes every connection that touches `particle_index`, keeping the order of
    /// the others; returns how many were removed.
    pub fn remove_for_particle(&mut self, particle_index: usize) -> (count: usize)
        ensures
            final(self)@ == old(self)@.filter(untouched_by(particle_index)),
            count == old(self)@.len() - final(self)@.len(),
            count == old(self)@.filter(touched_by(particle_index)).len(),
            count == touching_indices(old(self)@, particle_index).len(),
            final(self)@ == old(self)@.filter(
                |c: Connection| c.particle_a != particle_index && c.particle_b != particle_index,
            ),
            count == old(self)@.filter(
                |c: Connection| c.particle_a == particle_index || c.particle_b == particle_index,
            ).len(),
            forall|j: int|
                0 <= j < final(self)@.len() ==> (#[trigger] final(self)@[j]).particle_a
                    != particle_index && final(self)@[j].particle_b != particle_index,
    {
        let ghost start = self.list@;
        let before = self.list.len();
        let mut kept: Vec<Connection> = Vec::new();
        let mut i: usize = 0;
        while i < self.list.len()
            invariant
                self.list@ == start,
                i <= start.len(),
                kept@ == start.take(i as int).filter(untouched_by(particle_index)),
            decreases start.len() - i,
        {
            let c = self.list[i];
            proof {
                assert(start.take(i as int).push(c) =~= start.take(i + 1));
                start.take(i as int).lemma_filter_push(c, untouched_by(particle_index));
            }
            if c.particle_a != particle_index && c.particle_b != particle_index {
                kept.push(c);
            }
            i += 1;
        }
        proof {
            assert(start.take(start.len() as int) =~= start);
            lemma_filter_split_len(start, particle_index);
            lemma_touching_indices_len(start, particle_index);
        }
        self.list = kept;
        let after = self.list.len();
        assert forall|j: int| 0 <= j < self@.len() implies (#[trigger] self@[j]).particle_a
            != particle_index && self@[j].particle_b != particle_index by {
            start.lemma_filter_pred(untouched_by(particle_index), j);
        }
        assert(untouched_by(particle_index) =~= (|c: Connection|
            c.particle_a != particle_index && c.particle_b != particle_index));
        assert(touched_by(particle_index) =~= (|c: Connection|
            c.particle_a == particle_index || c.particle_b == particle_index));
        before - after
    }

    /// The positions, in increasing order, of the connections that touch `particle_index`.
    pub fn find_for_particle(&self, particle_index: usize) -> (found: Vec<usize>)
        ensures
            found@ == touching_indices(self@, particle_index),
            forall|k: int|
                0 <= k < found@.len() ==> {
                    &&& (#[trigger] found@[k]) < self@.len()
                    &&& self@[found@[k] as int].particle_a == particle_index
                        || self@[found@[k] as int].particle_b == particle_index
                },
            forall|k1: int, k2: int|
                0 <= k1 < k2 < found@.len() ==> #[trigger] found@[k1] < #[trigger] found@[k2],
            forall|j: int|
                0 <= j < self@.len() && ((#[trigger] self@[j]).particle_a == particle_index
                    || self@[j].particle_b == particle_index) ==> found@.contains(j as usize),
    {
        let mut found: Vec<usize> = Vec::new();
        let mut i: usize = 0;
        while i < self.list.len()
            invariant
                i <= self@.len(),
                found@ == touching_indices(self@.take(i as int), particle_index),
            decreases self@.len() - i,
        {
            let c = self.list[i];
            proof {
                let t = self@.take(i + 1);
                assert(t.drop_last() =~= self@.take(i as int));
                assert(t.last() == c);
            }
            if c.particle_a == particle_index || c.particle_b == particle_index {
                found.push(i);
            }
            i += 1;
        }
        proof {
            assert(self@.take(self@.len() as int) =~= self@);
            lemma_touching_indices_exact(self@, particle_index);
        }
        found
    }

    /// Renumbers the ends of every connection after particle `removed_index` has been
    /// taken out of the particle list: indices above it move down by one.
    pub fn remap_after_removal(&mut self, removed_index: usize)
        ensures
            final(self)@ == old(self)@.map_values(renumbering(removed_index)),
            final(self)@.len() == old(self)@.len(),
            forall|j: int|
                0 <= j < old(self)@.len() ==> {
                    let before = #[trigger] old(self)@[j];
                    let after = final(self)@[j];
                    &&& after.particle_a == if before.particle_a > removed_index {
                        before.particle_a - 1
                    } else {
                        before.particle_a as int
                    }
                    &&& after.particle_b == if before.particle_b > removed_index {
                        before.particle_b - 1
                    } else {
                        before.particle_b as int
                    }
                    &&& after.rest_length_bits == before.rest_length_bits
                    &&& after.stiffness_bits == before.stiffness_bits
                    &&& after.connection_type == before.connection_type
                },
    {
        let ghost start = self.list@;
        let mut i: usize = 0;
        while i < self.list.len()
            invariant
                self.list@.len() == start.len(),
                i <= start.len(),
                forall|j: int| 0 <= j < i ==> self.list@[j] == renumbered(start[j], removed_index),
                forall|j: int| i <= j < start.len() ==> self.list@[j] == start[j],
            decreases start.len() - i,
        {
            let mut c = self.list[i];
            if c.particle_a > removed_index {
                c.particle_a = c.particle_a - 1;
            }
            if c.particle_b > removed_index {
                c.particle_b = c.particle_b - 1;
            }
            self.list.set(i, c);
            i += 1;
        }
        assert(self.list@ =~= start.map_values(renumbering(removed_index)));
    }
}

} // verus!
