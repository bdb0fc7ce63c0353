//! The live-window table of the overlay window controller.
//!
//! One entry per overlay window currently on screen, keyed by record name.
//! The table only accounts for windows; the display calls that put them on
//! screen or take them down are made by the surrounding process, which
//! reports their outcome back to the dispatcher.

use vstd::prelude::*;

verus! {

/// The names of the overlays whose windows are on screen.
pub struct WindowState {
    displayed_overlays: Vec<String>,
}

/// No overlay name is registered twice: one window per overlay.
pub open spec fn names_unique(t: Seq<Seq<char>>) -> bool {
    forall|i: int, j: int| 0 <= i < j < t.len() ==> t[i] != t[j]
}

/// A window is registered under the name `n`.
pub open spec fn table_has(t: Seq<Seq<char>>, n: Seq<char>) -> bool {
    exists|i: int| 0 <= i < t.len() && t[i] == n
}

/// The index of the window registered under `n`; meaningful when
/// `table_has` holds and the names are unique.
pub open spec fn table_index(t: Seq<Seq<char>>, n: Seq<char>) -> int {
    choose|i: int| 0 <= i < t.len() && t[i] == n
}

/// The table after the window under `n` is closed; unchanged when no
/// window is registered under that name.
pub open spec fn table_remove(t: Seq<Seq<char>>, n: Seq<char>) -> Seq<Seq<char>> {
    if table_has(t, n) {
        t.remove(table_index(t, n))
    } else {
        t
    }
}

impl View for WindowState {
    type V = Seq<Seq<char>>;

    /// The table as the sequence of registered names, oldest first.
    closed spec fn view(&self) -> Seq<Seq<char>> {
        self.displayed_overlays@.map_values(|s: String| s@)
    }
}

impl WindowState {
    /// The table's invariant: at most one window per overlay name.
    pub open spec fn wf(&self) -> bool {
        names_unique(self@)
    }

    /// An empty table: no overlay is on screen.
    pub fn new() -> (r: WindowState)
        ensures
            r@ == Seq::<Seq<char>>::empty(),
            r.wf(),
    {
        let r = WindowState { displayed_overlays: Vec::new() };
        proof {
            assert(r@ =~= Seq::<Seq<char>>::empty());
        }
        r
    }

    /// The index of the window registered under `name`, with nothing
    /// before it carrying that name.
    fn index_of(&self, name: &String) -> (r: Option<usize>)
        ensures
            match r {
                Some(i) => {
                    &&& i < self@.len()
                    &&& self@[i as int] == name@
                    &&& forall|j: int| 0 <= j < i ==> self@[j] != name@
                },
                None => !table_has(self@, name@),
            },
    {
        let mut i: usize = 0;
        while i < self.displayed_overlays.len()
            invariant
                0 <= i <= self.displayed_overlays.len(),
                forall|j: int| 0 <= j < i ==> self@[j] != name@,
            decreases self.displayed_overlays.len() - i,
        {
            if self.displayed_overlays[i] == *name {
                return Some(i);
            }
            i = i + 1;
        }
        None
    }

    /// Whether the overlay called `name` has a window on screen.  Reads of
    /// this kind go through the same serialized dispatcher turn as every
    /// mutation, so the answer can never race an in-flight toggle.
    pub fn is_open(&self, name: &String) -> (r: bool)
        ensures
            r == table_has(self@, name@),
    {
        self.index_of(name).is_some()
    }

    /// Registers a window under `name` once the display system confirmed
    /// it; refuses a second registration for the same name, so that a
    /// double open can never clobber a live window's close channel.
    pub fn register(&mut self, name: &String) -> (fresh: bool)
        requires
            old(self).wf(),
        ensures
            fresh == !table_has(old(self)@, name@),
            final(self)@ == if fresh {
                old(self)@.push(name@)
            } else {
                old(self)@
            },
            final(self).wf(),
    {
        let ghost t = self@;
        match self.index_of(name) {
            Some(_) => false,
            None => {
                self.displayed_overlays.push(name.clone());
                proof {
                    assert(self@ =~= t.push(name@));
                    assert forall|p: int, q: int| 0 <= p < q < self@.len() implies self@[p]
                        != self@[q] by {
                        if q < t.len() {
                            assert(t[p] != t[q]);
                        } else {
                            assert(!table_has(t, name@));
                            assert(t[p] != name@);
                        }
                    }
                }
                true
            },
        }
    }

    /// Takes the window under `name` out of the table; a no-op when no
    /// window is registered there, so closing twice is harmless.
    pub fn close(&mut self, name: &String) -> (was_open: bool)
        requires
            old(self).wf(),
        ensures
            was_open == table_has(old(self)@, name@),
            final(self)@ == table_remove(old(self)@, name@),
            final(self).wf(),
    {
        let ghost t = self@;
        match self.index_of(name) {
            Some(i) => {
                self.displayed_overlays.remove(i);
                proof {
                    let j = table_index(t, name@);
                    assert(t[j] == name@);
                    assert(j == i);
                    assert(self@ =~= t.remove(i as int));
                    assert forall|p: int, q: int| 0 <= p < q < self@.len() implies self@[p]
                        != self@[q] by {
                        let p0 = if p < i { p } else { p + 1 };
                        let q0 = if q < i { q } else { q + 1 };
                        assert(self@[p] == t[p0]);
                        assert(self@[q] == t[q0]);
                        assert(t[p0] != t[q0]);
                    }
                }
                true
            },
            None => false,
        }
    }

    /// Empties the table and hands back every name that was registered, in
    /// table order, so that the caller can signal each window's close
    /// channel at shutdown.
    pub fn close_all(&mut self) -> (names: Vec<String>)
        ensures
            final(self)@ == Seq::<Seq<char>>::empty(),
            names@.map_values(|s: String| s@) == old(self)@,
            final(self).wf(),
    {
        let mut names: Vec<String> = Vec::new();
        let mut i: usize = 0;
        while i < self.displayed_overlays.len()
            invariant
                0 <= i <= self.displayed_overlays.len(),
                names@.len() == i,
                forall|j: int| 0 <= j < i ==> names@[j]@ == self@[j],
            decreases self.displayed_overlays.len() - i,
        {
            names.push(self.displayed_overlays[i].clone());
            i = i + 1;
        }
        self.displayed_overlays = Vec::new();
        proof {
            assert(self@ =~= Seq::<Seq<char>>::empty());
            assert(names@.map_values(|s: String| s@) =~= old(self)@);
        }
        names
    }
}

/// A close takes the name out for good: afterwards no window is
/// registered under it, and the remaining names stay pairwise distinct.
pub proof fn lemma_close_closes(t: Seq<Seq<char>>, n: Seq<char>)
    requires
        names_unique(t),
    ensures
        !table_has(table_remove(t, n), n),
        names_unique(table_remove(t, n)),
{
    if table_has(t, n) {
        let i = table_index(t, n);
        let t2 = table_remove(t, n);
        assert(t[i] == n);
        assert forall|k: int| 0 <= k < t2.len() implies t2[k] != n by {
            let k0 = if k < i { k } else { k + 1 };
            assert(t2[k] == t[k0]);
            if k0 < i {
                assert(t[k0] != t[i]);
            } else {
                assert(t[i] != t[k0]);
            }
        }
        assert forall|p: int, q: int| 0 <= p < q < t2.len() implies t2[p] != t2[q] by {
            let p0 = if p < i { p } else { p + 1 };
            let q0 = if q < i { q } else { q + 1 };
            assert(t2[p] == t[p0]);
            assert(t2[q] == t[q0]);
            assert(t[p0] != t[q0]);
        }
    }
}

/// Closing is idempotent: a close of a name never opened changes nothing,
/// and a second close of the same name changes nothing after the first.
pub proof fn lemma_close_idempotent(t: Seq<Seq<char>>, n: Seq<char>)
    requires
        names_unique(t),
    ensures
        !table_has(t, n) ==> table_remove(t, n) == t,
        table_remove(table_remove(t, n), n) == table_remove(t, n),
{
    lemma_close_closes(t, n);
}

} // verus!
