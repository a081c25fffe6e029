//! The in-memory paste store: pastes keyed by their slugs.
use vstd::prelude::*;
use crate::clock::Timestamp;
use crate::pasta::{Pasta, PastaView};
use crate::slug_map::{entries_map, keys_distinct, SlugMap};

verus! {

/// The pastes of `m` that are not due for removal at `now` (see [`PastaView::is_stale_at`]).
pub open spec fn fresh_at(m: Map<Seq<char>, PastaView>, now: Timestamp, gc_days: u16) -> Map<
    Seq<char>,
    PastaView,
> {
    m.restrict(m.dom().filter(|k: Seq<char>| !m[k].is_stale_at(now, gc_days)))
}

/// The store that storing the pastes of `s` one after another gives: a later paste
/// replaces an earlier one with the same slug, and a paste with an instant outside
/// chrono's range is left out.
pub open spec fn loaded(s: Seq<Pasta>) -> Map<Seq<char>, PastaView>
    decreases s.len(),
{
    if s.len() == 0 {
        Map::empty()
    } else {
        let m = loaded(s.drop_last());
        let p = s.last();
        if p@.times_wf() {
            m.insert(p.slug@, p@)
        } else {
            m
        }
    }
}

/// The views of the pastes of `m`.
pub open spec fn pasta_views(m: Map<Seq<char>, Pasta>) -> Map<Seq<char>, PastaView> {
    m.map_values(|p: Pasta| p@)
}

/// The pastes of the service, keyed by slug.
pub struct PastaStore {
    pastas: SlugMap<Pasta>,
}

impl View for PastaStore {
    type V = Map<Seq<char>, PastaView>;

    closed spec fn view(&self) -> Map<Seq<char>, PastaView> {
        pasta_views(self.pastas@)
    }
}

impl PastaStore {
    /// Every paste is stored under its own slug, with its instants in range.
    #[verifier::type_invariant]
    spec fn inv(self) -> bool {
        forall|k: Seq<char>|
            #[trigger] self.pastas@.contains_key(k) ==> self.pastas@[k].slug@ == k
                && self.pastas@[k]@.times_wf()
    }

    /// An empty store.
    pub fn new() -> (r: PastaStore)
        ensures
            r@ == Map::<Seq<char>, PastaView>::empty(),
    {
        let r = PastaStore { pastas: SlugMap::new() };
        assert(r@ =~= Map::<Seq<char>, PastaView>::empty());
        r
    }

    /// The paste stored under `slug`, if any.
    pub fn get(&self, slug: &str) -> (r: Option<&Pasta>)
        ensures
            match r {
                Some(p) => self@.contains_key(slug@) && p@ == self@[slug@] && p@.slug == slug@
                    && p@.times_wf(),
                None => !self@.contains_key(slug@),
            },
    {
        proof {
            use_type_invariant(self);
        }
        self.pastas.get(slug)
    }

    /// Whether a paste is stored under `slug`.
    pub fn contains(&self, slug: &str) -> (r: bool)
        ensures
            r == self@.contains_key(slug@),
    {
        match self.pastas.get(slug) {
            Some(_) => true,
            None => false,
        }
    }

    /// Takes the paste stored under `slug` out of the store.
    pub fn remove(&mut self, slug: &str) -> (r: Option<Pasta>)
        ensures
            final(self)@ == old(self)@.remove(slug@),
            match r {
                Some(p) => old(self)@.contains_key(slug@) && p@ == old(self)@[slug@] && p@.slug == slug@
                    && p@.times_wf(),
                None => !old(self)@.contains_key(slug@),
            },
    {
        proof {
            use_type_invariant(&*self);
        }
        let mut m: SlugMap<Pasta> = SlugMap::new();
        std::mem::swap(&mut m, &mut self.pastas);
        let r = m.remove(slug);
        self.pastas = m;
        proof {
            assert(self@ =~= old(self)@.remove(slug@));
        }
        r
    }

    /// Stores `pasta` under its slug, replacing any paste stored there.
    pub fn insert(&mut self, pasta: Pasta)
        requires
            pasta@.times_wf(),
        ensures
            final(self)@ == old(self)@.insert(pasta.slug@, pasta@),
    {
        proof {
            use_type_invariant(&*self);
        }
        let slug = pasta.slug.clone();
        let mut m: SlugMap<Pasta> = SlugMap::new();
        std::mem::swap(&mut m, &mut self.pastas);
        m.insert(slug, pasta);
        self.pastas = m;
        proof {
            assert(self@ =~= old(self)@.insert(pasta.slug@, pasta@));
        }
    }

    /// Removes every paste that is due for removal at `now` (see
    /// [`PastaView::is_stale_at`]), keeping the others unchanged.
    pub fn retain_fresh(&mut self, now: Timestamp, gc_days: u16)
        requires
            now.wf(),
        ensures
            final(self)@ == fresh_at(old(self)@, now, gc_days),
    {
        proof {
            use_type_invariant(&*self);
        }
        let ghost m0 = self.pastas@;
        let entries = self.pastas.entries();
        let mut kept: SlugMap<Pasta> = SlugMap::new();
        let mut i: usize = 0;
        while i < entries.len()
            invariant
                keys_distinct(entries@),
                entries_map(entries@) == m0,
                forall|j: int|
                    0 <= j < entries@.len() ==> m0.contains_key(#[trigger] entries@[j].0@) && m0[entries@[j].0@]
                        == entries@[j].1,
                forall|k: Seq<char>|
                    #[trigger] m0.contains_key(k) ==> m0[k].slug@ == k && m0[k]@.times_wf(),
                now.wf(),
                i <= entries@.len(),
                forall|k: Seq<char>|
                    #[trigger] kept@.contains_key(k) ==> m0.contains_key(k) && kept@[k]@ == m0[k]@ && !m0[k]@.is_stale_at(
                        now,
                        gc_days,
                    ) && exists|j: int| 0 <= j < i && entries@[j].0@ == k,
                forall|j: int|
                    0 <= j < i && !m0[entries@[j].0@]@.is_stale_at(now, gc_days) ==> #[trigger] kept@.contains_key(
                        entries@[j].0@,
                    ),
            decreases entries@.len() - i,
        {
            let key = &entries[i].0;
            let pasta = &entries[i].1;
            proof {
                assert(m0.contains_key(entries@[i as int].0@));
                assert(m0[entries@[i as int].0@]@.times_wf());
            }
            if !pasta.is_stale_at(&now, gc_days) {
                proof {
                    if kept@.contains_key(key@) {
                        let j = choose|j: int| 0 <= j < i && entries@[j].0@ == key@;
                        assert(entries@[j].0@ == entries@[i as int].0@);
                    }
                }
                let ghost before = kept@;
                kept.insert_new(key.clone(), pasta.duplicate());
                proof {
                    assert forall|k: Seq<char>| #[trigger] kept@.contains_key(k) implies exists|j: int|
                        0 <= j < i + 1 && entries@[j].0@ == k by {
                        if k == key@ {
                            assert(entries@[i as int].0@ == k);
                        } else {
                            assert(before.contains_key(k));
                        }
                    }
                }
            }
            i = i + 1;
        }
        proof {
            let f = fresh_at(pasta_views(m0), now, gc_days);
            assert forall|k: Seq<char>| #[trigger] pasta_views(kept@).contains_key(k) <==> f.contains_key(k) by {
                if m0.contains_key(k) && !m0[k]@.is_stale_at(now, gc_days) {
                    let j = choose|j: int| 0 <= j < entries@.len() && #[trigger] entries@[j].0@ == k;
                    assert(kept@.contains_key(entries@[j].0@));
                }
            }
            assert(pasta_views(kept@) =~= f);
        }
        self.pastas = kept;
    }

    /// A store holding the pastes of `pastas`, stored in their order (see [`loaded`]).
    pub fn from_pastas(pastas: Vec<Pasta>) -> (r: PastaStore)
        ensures
            r@ == loaded(pastas@),
    {
        let mut store = PastaStore::new();
        let mut i: usize = 0;
        while i < pastas.len()
            invariant
                i <= pastas@.len(),
                store@ == loaded(pastas@.subrange(0, i as int)),
            decreases pastas@.len() - i,
        {
            proof {
                assert(pastas@.subrange(0, i + 1).drop_last() =~= pastas@.subrange(0, i as int));
            }
            if pastas[i].times_in_range() {
                let p = pastas[i].duplicate();
                store.insert(p);
            }
            i = i + 1;
        }
        proof {
            assert(pastas@.subrange(0, pastas@.len() as int) =~= pastas@);
        }
        store
    }

    /// The stored pastes with their slugs, each slug once, in no particular order.
    pub fn pastas(&self) -> (r: &Vec<(String, Pasta)>)
        ensures
            keys_distinct(r@),
            pasta_views(entries_map(r@)) == self@,
            forall|i: int| 0 <= i < r@.len() ==> (#[trigger] r@[i]).1.slug@ == r@[i].0@,
    {
        proof {
            use_type_invariant(self);
        }
        self.pastas.entries()
    }
}

} // verus!
