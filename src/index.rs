use vstd::prelude::*;
use crate::action::{Action, Key};
use crate::bible::{dedup, keys_view, Bible, KeyView};
use crate::text::{contains, contains_chars, lower, to_ascii_lower, to_chars};

verus! {

/// Whether chapter key `k` passes the filter `q`: its book name contains
/// `q`, ASCII letters compared without case.
pub open spec fn key_matches(k: KeyView, q: Seq<char>) -> bool {
    contains(lower(k.0), lower(q))
}

/// The keys of `s` that pass the filter `q`, in order.
pub open spec fn filter_keys(s: Seq<KeyView>, q: Seq<char>) -> Seq<KeyView>
    decreases s.len(),
{
    if s.len() == 0 {
        Seq::empty()
    } else {
        let f = filter_keys(s.drop_last(), q);
        if key_matches(s.last(), q) {
            f.push(s.last())
        } else {
            f
        }
    }
}

/// `sel` pulled back into a list of `len` entries (0 when it is empty).
pub open spec fn clamp_sel(sel: int, len: int) -> int {
    if sel >= len {
        if len > 0 {
            len - 1
        } else {
            0
        }
    } else {
        sel
    }
}

/// The chapter index as plain values.
pub struct IndexView {
    pub all: Seq<KeyView>,
    pub items: Seq<KeyView>,
    pub selected: int,
    pub filtering: bool,
    pub query: Seq<char>,
}

impl IndexView {
    pub open spec fn wf(self) -> bool {
        &&& self.items == filter_keys(self.all, self.query)
        &&& self.items.len() == 0 ==> self.selected == 0
        &&& self.items.len() > 0 ==> 0 <= self.selected < self.items.len()
    }

    /// The state with query `q` and the list recomputed for it.
    pub open spec fn refiltered(self, q: Seq<char>) -> IndexView {
        IndexView {
            query: q,
            items: filter_keys(self.all, q),
            selected: clamp_sel(self.selected, filter_keys(self.all, q).len() as int),
            ..self
        }
    }

    pub open spec fn is_up(self, k: Key) -> bool {
        k == Key::Up || (!self.filtering && k == Key::Char('k'))
    }

    pub open spec fn is_down(self, k: Key) -> bool {
        k == Key::Down || (!self.filtering && k == Key::Char('j'))
    }

    /// Whether key `k` moves the selection.
    pub open spec fn moves(self, k: Key) -> bool {
        (self.is_up(k) && self.selected > 0) || (self.is_down(k) && self.selected + 1
            < self.items.len())
    }

    /// The state after key `k`.
    pub open spec fn step(self, k: Key) -> IndexView {
        if self.is_up(k) {
            if self.selected > 0 {
                IndexView { selected: self.selected - 1, ..self }
            } else {
                self
            }
        } else if self.is_down(k) {
            if self.selected + 1 < self.items.len() {
                IndexView { selected: self.selected + 1, ..self }
            } else {
                self
            }
        } else if !self.filtering {
            if k == Key::Char('/') {
                IndexView { filtering: true, ..self.refiltered(Seq::empty()) }
            } else {
                self
            }
        } else {
            match k {
                Key::Esc | Key::Enter => IndexView { filtering: false, ..self },
                Key::Backspace => if self.query.len() > 0 {
                    self.refiltered(self.query.drop_last())
                } else {
                    self.refiltered(self.query)
                },
                Key::Char(c) => self.refiltered(self.query.push(c)),
                _ => self,
            }
        }
    }
}

/// Whether `a` opens chapter key `k`.
pub open spec fn opens(a: Action, k: KeyView) -> bool {
    match a {
        Action::OpenPassage { book, chapter } => book@ == k.0 && chapter == k.1,
        _ => false,
    }
}

/// The chapter list with its filter and selection.
pub struct Index {
    all_items: Vec<(String, u16)>,
    items: Vec<(String, u16)>,
    selected: usize,
    filtering: bool,
    query: Vec<char>,
}

impl View for Index {
    type V = IndexView;

    closed spec fn view(&self) -> IndexView {
        IndexView {
            all: keys_view(self.all_items@),
            items: keys_view(self.items@),
            selected: self.selected as int,
            filtering: self.filtering,
            query: self.query@,
        }
    }
}

impl Index {
    /// The index over every chapter of `bible`, unfiltered, first entry selected.
    pub fn new(bible: Bible) -> (r: Index)
        ensures
            r@.wf(),
            r@.all == dedup(bible.chapter_keys()),
            r@.items == r@.all,
            r@.selected == 0,
            !r@.filtering,
            r@.query.len() == 0,
    {
        let all_items = bible.chapters();
        let mut idx = Index {
            all_items,
            items: Vec::new(),
            selected: 0,
            filtering: false,
            query: Vec::new(),
        };
        idx.apply_filter();
        proof {
            lemma_empty_query_keeps_all(idx@.all);
        }
        idx
    }

    /// Recomputes the visible list for the current query and pulls the
    /// selection back into it.
    fn apply_filter(&mut self)
        ensures
            final(self)@ == old(self)@.refiltered(old(self)@.query),
    {
        let q = to_ascii_lower(&self.query);
        let mut items: Vec<(String, u16)> = Vec::new();
        let mut i: usize = 0;
        let ghost all = keys_view(self.all_items@);
        while i < self.all_items.len()
            invariant
                all == keys_view(self.all_items@),
                q@ == lower(self.query@),
                i <= self.all_items@.len(),
                keys_view(items@) == filter_keys(all.subrange(0, i as int), self.query@),
            decreases self.all_items@.len() - i,
        {
            let (b, c) = &self.all_items[i];
            let lb = to_ascii_lower(&to_chars(b.as_str()));
            assert(all.subrange(0, i + 1).drop_last() =~= all.subrange(0, i as int));
            assert(all[i as int] == (b@, *c));
            let ghost before = items@;
            if contains_chars(&lb, &q) {
                items.push((b.clone(), *c));
                assert(items@ =~= before.push(items@[before.len() as int]));
                assert(keys_view(items@) =~= keys_view(before).push(all[i as int]));
            }
            i = i + 1;
        }
        assert(all.subrange(0, i as int) =~= all);
        self.items = items;
        if self.selected >= self.items.len() {
            self.selected = if self.items.len() > 0 {
                self.items.len() - 1
            } else {
                0
            };
        }
    }

    fn select(&mut self, i: usize) -> (r: Option<Action>)
        requires
            i < old(self)@.items.len(),
        ensures
            final(self)@ == (IndexView { selected: i as int, ..old(self)@ }),
            r is Some && opens(r->0, final(self)@.items[i as int]),
    {
        self.selected = i;
        let (b, c) = &self.items[i];
        Some(Action::OpenPassage { book: b.clone(), chapter: *c })
    }

    /// Applies key `k`. A move of the selection returns the action that opens
    /// the newly selected chapter.
    pub fn handle_key_event(&mut self, k: Key) -> (r: Option<Action>)
        requires
            old(self)@.wf(),
        ensures
            final(self)@ == old(self)@.step(k),
            final(self)@.wf(),
            r is Some <==> old(self)@.moves(k),
            r is Some ==> opens(r->0, final(self)@.items[final(self)@.selected]),
    {
        let up = match k {
            Key::Up => true,
            Key::Char('k') => !self.filtering,
            _ => false,
        };
        let down = match k {
            Key::Down => true,
            Key::Char('j') => !self.filtering,
            _ => false,
        };
        if up {
            if self.selected > 0 {
                return self.select(self.selected - 1);
            }
            return None;
        }
        if down {
            if self.items.len() > 0 && self.selected < self.items.len() - 1 {
                return self.select(self.selected + 1);
            }
            return None;
        }
        if !self.filtering {
            if let Key::Char('/') = k {
                self.filtering = true;
                self.query = Vec::new();
                self.apply_filter();
            }
            return None;
        }
        match k {
            Key::Esc | Key::Enter => {
                self.filtering = false;
            },
            Key::Backspace => {
                self.query.pop();
                self.apply_filter();
            },
            Key::Char(c) => {
                self.query.push(c);
                self.apply_filter();
            },
            _ => {},
        }
        None
    }

    /// The visible chapter keys.
    pub fn items(&self) -> (r: &Vec<(String, u16)>)
        ensures
            keys_view(r@) == self@.items,
    {
        &self.items
    }

    pub fn selected(&self) -> (r: usize)
        ensures
            r == self@.selected,
    {
        self.selected
    }

    /// The filter query, when the query is being edited.
    pub fn editing_query(&self) -> (r: Option<&Vec<char>>)
        ensures
            r is Some <==> self@.filtering,
            r is Some ==> r->0@ == self@.query,
    {
        if self.filtering {
            Some(&self.query)
        } else {
            None
        }
    }
}

/// With an empty query every key passes.
pub proof fn lemma_empty_query_keeps_all(s: Seq<KeyView>)
    ensures
        filter_keys(s, Seq::empty()) == s,
    decreases s.len(),
{
    if s.len() > 0 {
        lemma_empty_query_keeps_all(s.drop_last());
        let h = lower(s.last().0);
        let e = lower(Seq::<char>::empty());
        assert(e.len() == 0);
        assert(h.subrange(0, 0 + e.len() as int) =~= e);
        assert(key_matches(s.last(), Seq::empty()));
        assert(s.drop_last().push(s.last()) =~= s);
    }
}


/// A key is in the filtered list exactly when it is in the list and passes the filter.
pub proof fn lemma_filter_members(s: Seq<KeyView>, q: Seq<char>, k: KeyView)
    ensures
        filter_keys(s, q).contains(k) <==> (s.contains(k) && key_matches(k, q)),
    decreases s.len(),
{
    if s.len() > 0 {
        lemma_filter_members(s.drop_last(), q, k);
        let f = filter_keys(s.drop_last(), q);
        assert(s =~= s.drop_last().push(s.last()));
        if s.contains(k) && k != s.last() {
            let j = choose|j: int| 0 <= j < s.len() && s[j] == k;
            assert(s.drop_last()[j] == k);
        }
        if f.contains(k) {
            let j = choose|j: int| 0 <= j < f.len() && f[j] == k;
            assert(f.push(s.last())[j] == k);
        }
        if key_matches(s.last(), q) {
            assert(f.push(s.last())[f.len() as int] == s.last());
        }
        if filter_keys(s, q).contains(k) && !f.contains(k) {
            let j = choose|j: int| 0 <= j < filter_keys(s, q).len() && filter_keys(s, q)[j] == k;
            assert(s[s.len() - 1] == k);
        }
        if s.drop_last().contains(k) {
            let j = choose|j: int| 0 <= j < s.drop_last().len() && s.drop_last()[j] == k;
            assert(s[j] == k);
        }
    }
}

/// Filtering an already filtered list by the same query changes nothing.
pub proof fn lemma_filter_idempotent(s: Seq<KeyView>, q: Seq<char>)
    ensures
        filter_keys(filter_keys(s, q), q) == filter_keys(s, q),
    decreases s.len(),
{
    if s.len() > 0 {
        lemma_filter_idempotent(s.drop_last(), q);
        let f = filter_keys(s.drop_last(), q);
        if key_matches(s.last(), q) {
            assert(f.push(s.last()).drop_last() =~= f);
        }
    }
}

/// Occurrence is transitive: a run of a run of `h` is a run of `h`.
pub proof fn lemma_contains_trans(h: Seq<char>, m: Seq<char>, n: Seq<char>)
    requires
        contains(h, m),
        contains(m, n),
    ensures
        contains(h, n),
{
    let i = choose|i: int| 0 <= i && i + m.len() <= h.len() && #[trigger] h.subrange(i, i + m.len()) == m;
    let j = choose|j: int| 0 <= j && j + n.len() <= m.len() && #[trigger] m.subrange(j, j + n.len()) == n;
    assert(h.subrange(i + j, i + j + n.len()) =~= n);
}

/// Lower-casing keeps occurrences.
pub proof fn lemma_lower_contains(h: Seq<char>, n: Seq<char>)
    requires
        contains(h, n),
    ensures
        contains(lower(h), lower(n)),
{
    let i = choose|i: int| 0 <= i && i + n.len() <= h.len() && #[trigger] h.subrange(i, i + n.len()) == n;
    assert(lower(h).subrange(i, i + lower(n).len()) =~= lower(n));
}

/// A longer query narrows the list: every key kept for a query that contains
/// `q1` is also kept for `q1`.
pub proof fn lemma_filter_monotone(s: Seq<KeyView>, q1: Seq<char>, q2: Seq<char>)
    requires
        contains(q2, q1),
    ensures
        forall|k: KeyView| #[trigger] filter_keys(s, q2).contains(k) ==> filter_keys(s, q1).contains(k),
{
    assert forall|k: KeyView| #[trigger] filter_keys(s, q2).contains(k) implies filter_keys(s, q1).contains(k) by {
        lemma_filter_members(s, q2, k);
        lemma_filter_members(s, q1, k);
        lemma_lower_contains(q2, q1);
        lemma_contains_trans(lower(k.0), lower(q2), lower(q1));
    }
}

} // verus!
