use vstd::prelude::*;

use crate::manager::instance::{grid_fits_instance, text_view, InstanceView, TerminalInstance};
use crate::status::query::TerminalState;
use crate::terminal::grid::TerminalGrid;
use crate::text::{chars_equal, chars_of, chars_to_string, decimal, push_chars, push_decimal};

verus! {

/// A summary of one terminal for listings.
#[derive(Debug, Clone)]
pub struct TerminalInfo {
    pub id: String,
    pub cols: usize,
    pub rows: usize,
    pub state: TerminalState,
    pub created_at: String,
    pub running_command: Option<String>,
}

/// How many two-character identifiers there are (36 characters, twice).
pub const ID_COUNT: usize = 1296;

/// The identifier character at place `k`: `a`..`z`, then `0`..`9`.
pub open spec fn id_char(k: nat) -> char {
    if k < 26 {
        ((97 + k) as u32) as char
    } else {
        ((48 + k - 26) as u32) as char
    }
}

/// The identifier at position `n` of the cycle of identifiers.
pub open spec fn short_id(n: nat) -> Seq<char> {
    seq![id_char((n / 36) % 36), id_char(n % 36)]
}

/// The identifiers of a list of terminals.
pub open spec fn ids_of(ts: Seq<InstanceView>) -> Seq<Seq<char>> {
    ts.map_values(|t: InstanceView| t.id)
}

/// How many positions past `n` the first identifier not in `ids` lies
/// (`ID_COUNT` when every identifier is taken).
pub open spec fn free_offset(ids: Seq<Seq<char>>, n: nat, d: nat) -> nat
    decreases 1296 - d,
{
    if d >= 1296 {
        d
    } else if !ids.contains(short_id((n + d) % 1296)) {
        d
    } else {
        free_offset(ids, n, d + 1)
    }
}

/// The message of a refused creation.
pub open spec fn limit_message(max: nat) -> Seq<char> {
    seq!['M', 'a', 'x', 'i', 'm', 'u', 'm', ' ', 'i', 'n', 's', 't', 'a', 'n', 'c', 'e', 's', ' ', '(']
        + decimal(max) + seq![')', ' ', 'r', 'e', 'a', 'c', 'h', 'e', 'd']
}

/// Registry managing multiple terminal instances. No globals. The
/// instances are kept in a `Vec` in the order they were made, found by a
/// scan over their identifiers, which are distinct (`wf`); vstd specifies
/// no lookup of a `HashMap` keyed by `String`, so a map would leave the
/// lookups without a contract.
pub struct TerminalRegistry {
    instances: Vec<TerminalInstance>,
    max_instances: usize,
    next_id: usize,
}

/// The mathematical state of a registry: its terminals in the order they
/// were made, the most it holds, and where the search for the next
/// identifier starts.
pub ghost struct RegistryView {
    pub instances: Seq<InstanceView>,
    pub max_instances: nat,
    pub next_id: nat,
}

impl View for TerminalRegistry {
    type V = RegistryView;

    closed spec fn view(&self) -> RegistryView {
        RegistryView {
            instances: self.instances@.map_values(|t: TerminalInstance| t@),
            max_instances: self.max_instances as nat,
            next_id: self.next_id as nat,
        }
    }
}

/// The summary of a terminal that a listing gives.
pub open spec fn info_of(t: InstanceView) -> (Seq<char>, nat, nat, TerminalState, Seq<char>, Option<Seq<char>>) {
    (t.id, t.grid.screen.cols, t.grid.screen.rows_count, t.process_state, t.created_at, t.running_command)
}

pub open spec fn info_view(i: TerminalInfo) -> (Seq<char>, nat, nat, TerminalState, Seq<char>, Option<Seq<char>>) {
    (i.id@, i.cols as nat, i.rows as nat, i.state, i.created_at@, text_view(i.running_command))
}

/// Two different positions of the cycle give different identifiers.
proof fn lemma_short_id_injective(a: nat, b: nat)
    requires
        a < 1296,
        b < 1296,
        a != b,
    ensures
        short_id(a) != short_id(b),
{
    assert(a == 36 * (a / 36) + a % 36);
    assert(b == 36 * (b / 36) + b % 36);
    if short_id(a) == short_id(b) {
        assert(short_id(a)[0] == short_id(b)[0]);
        assert(short_id(a)[1] == short_id(b)[1]);
        assert(a % 36 == b % 36);
        assert((a / 36) % 36 == (b / 36) % 36);
        assert(a / 36 < 36 && b / 36 < 36) by (nonlinear_arith)
            requires
                a < 1296,
                b < 1296,
        ;
    }
}

/// While fewer than `ID_COUNT` identifiers are taken, the search finds a
/// free one.
pub proof fn lemma_free_id_exists(ids: Seq<Seq<char>>, n: nat)
    requires
        ids.len() < 1296,
    ensures
        free_offset(ids, n, 0) < 1296,
        !ids.contains(short_id((n + free_offset(ids, n, 0)) % 1296)),
{
    lemma_free_offset_scan(ids, n, 0);
    if free_offset(ids, n, 0) >= 1296 {
        let all = Seq::new(1296, |d: int| short_id(((n + d) % 1296) as nat));
        assert forall|i: int, j: int| 0 <= i < all.len() && 0 <= j < all.len() && i != j implies all[i]
            != all[j] by {
            assert((n + i) % 1296 != (n + j) % 1296) by (nonlinear_arith)
                requires
                    0 <= i < 1296,
                    0 <= j < 1296,
                    i != j,
            ;
            lemma_short_id_injective(((n + i) % 1296) as nat, ((n + j) % 1296) as nat);
        }
        assert(all.no_duplicates());
        all.unique_seq_to_set();
        assert(all.to_set().subset_of(ids.to_set())) by {
            assert forall|x: Seq<char>| all.to_set().contains(x) implies ids.to_set().contains(x) by {
                let d = choose|d: int| 0 <= d < all.len() && all[d] == x;
                let k: nat = d as nat;
                assert(k < free_offset(ids, n, 0));
                assert(ids.contains(short_id((n + k) % 1296)));
                assert(all[d] == short_id((n + k) % 1296));
            }
        }
        ids.lemma_cardinality_of_set();
        vstd::set_lib::lemma_len_subset(all.to_set(), ids.to_set());
    }
}

/// Every position the search passed holds a taken identifier, and where it
/// stops (before `ID_COUNT`) the identifier is free.
proof fn lemma_free_offset_scan(ids: Seq<Seq<char>>, n: nat, d: nat)
    requires
        d <= 1296,
        forall|k: nat| k < d ==> ids.contains(#[trigger] short_id((n + k) % 1296)),
    ensures
        free_offset(ids, n, d) >= d,
        forall|k: nat| k < free_offset(ids, n, d) ==> ids.contains(#[trigger] short_id((n + k) % 1296)),
        free_offset(ids, n, d) < 1296 ==> !ids.contains(short_id((n + free_offset(ids, n, d)) % 1296)),
        free_offset(ids, n, d) <= 1296,
    decreases 1296 - d,
{
    if d < 1296 && ids.contains(short_id((n + d) % 1296)) {
        lemma_free_offset_scan(ids, n, d + 1);
    }
}

/// The identifier at position `n` of the cycle.
fn make_short_id(n: usize) -> (s: Vec<char>)
    requires
        n < 1296,
    ensures
        s@ == short_id(n as nat),
{
    let a = n / 36;
    let b = n % 36;
    vec![id_char_exec(a), id_char_exec(b)]
}

fn id_char_exec(k: usize) -> (c: char)
    requires
        k < 36,
    ensures
        c == id_char(k as nat),
{
    let table = vec![
        'a', 'b', 'c', 'd', 'e', 'f', 'g', 'h', 'i', 'j', 'k', 'l', 'm', 'n', 'o', 'p', 'q', 'r', 's',
        't', 'u', 'v', 'w', 'x', 'y', 'z', '0', '1', '2', '3', '4', '5', '6', '7', '8', '9',
    ];
    let c = table[k];
    assert(c == id_char(k as nat)) by {
        assert(table@ =~= Seq::new(36, |i: int| id_char(i as nat)));
    }
    c
}

/// Replacing one terminal of a list replaces its view.
proof fn lemma_views_update(s: Seq<TerminalInstance>, i: int)
    requires
        0 <= i < s.len(),
    ensures
        forall|x: TerminalInstance| #![trigger s.update(i, x)] s.update(i, x).map_values(|t: TerminalInstance| t@)
            == s.map_values(|t: TerminalInstance| t@).update(i, x@),
{
    assert forall|x: TerminalInstance| #![trigger s.update(i, x)] s.update(i, x).map_values(|t: TerminalInstance| t@)
        == s.map_values(|t: TerminalInstance| t@).update(i, x@) by {
        assert(s.update(i, x).map_values(|t: TerminalInstance| t@) =~= s.map_values(|t: TerminalInstance| t@).update(i, x@));
    }
}

impl TerminalRegistry {
    /// Consistency: every terminal is consistent, identifiers are distinct,
    /// no more terminals than allowed, and the search position lies in the
    /// cycle.
    pub closed spec fn wf(&self) -> bool {
        &&& self.next_id < 1296
        &&& self.instances@.len() <= self.max_instances
        &&& forall|i: int| 0 <= i < self.instances@.len() ==> (#[trigger] self.instances@[i]).wf()
        &&& forall|i: int, j: int|
            0 <= i < self.instances@.len() && 0 <= j < self.instances@.len() && i != j
                ==> (#[trigger] self.instances@[i])@.id != (#[trigger] self.instances@[j])@.id
    }

    pub fn new(max_instances: usize) -> (r: Self)
        ensures
            r.wf(),
            r@ == (RegistryView { instances: Seq::empty(), max_instances: max_instances as nat, next_id: 0 }),
    {
        let r = Self { instances: Vec::new(), max_instances, next_id: 0 };
        assert(r@.instances =~= Seq::<InstanceView>::empty());
        r
    }

    /// A consistent registry never holds more terminals than it allows,
    /// and no two of its terminals share an identifier.
    pub proof fn lemma_registry_invariants(&self)
        requires
            self.wf(),
        ensures
            self@.instances.len() <= self@.max_instances,
            forall|i: int, j: int|
                0 <= i < self@.instances.len() && 0 <= j < self@.instances.len() && i != j
                    ==> self@.instances[i].id != self@.instances[j].id,
    {
        assert forall|i: int, j: int|
            0 <= i < self@.instances.len() && 0 <= j < self@.instances.len() && i != j implies self@.instances[i].id
                != self@.instances[j].id by {
            assert(self@.instances[i] == self.instances@[i]@);
            assert(self@.instances[j] == self.instances@[j]@);
        }
    }

    /// The position of the terminal with identifier `id`, if there is one.
    fn find(&self, id: &Vec<char>) -> (r: Option<usize>)
        ensures
            r matches Some(i) ==> i < self@.instances.len() && self@.instances[i as int].id == id@,
            r is None ==> !ids_of(self@.instances).contains(id@),
    {
        let mut i: usize = 0;
        while i < self.instances.len()
            invariant
                i <= self.instances@.len(),
                forall|k: int| 0 <= k < i ==> (#[trigger] self.instances@[k])@.id != id@,
            decreases self.instances@.len() - i,
        {
            let other = chars_of(self.instances[i].id().as_str());
            if chars_equal(&other, id) {
                return Some(i);
            }
            i = i + 1;
        }
        proof {
            if ids_of(self@.instances).contains(id@) {
                let k = choose|k: int| 0 <= k < ids_of(self@.instances).len() && ids_of(self@.instances)[k] == id@;
                assert(self.instances@[k]@.id == id@);
            }
        }
        None
    }

    /// The identifier for a new terminal: the first free one from the
    /// search position on; the search goes on after it.
    fn next_short_id(&mut self) -> (id: Vec<char>)
        requires
            old(self).wf(),
            old(self)@.instances.len() < 1296,
        ensures
            final(self).wf(),
            id@ == short_id(
                (old(self)@.next_id + free_offset(ids_of(old(self)@.instances), old(self)@.next_id, 0)) % 1296,
            ),
            !ids_of(old(self)@.instances).contains(id@),
            final(self)@ == (RegistryView {
                next_id: (old(self)@.next_id + free_offset(ids_of(old(self)@.instances), old(self)@.next_id, 0)
                    + 1) % 1296,
                ..old(self)@
            }),
    {
        let ghost ids = ids_of(self@.instances);
        let ghost n0 = self@.next_id;
        proof {
            lemma_free_id_exists(ids, n0);
            lemma_free_offset_scan(ids, n0, 0);
        }
        let ghost target = free_offset(ids, n0, 0);
        let mut pos: usize = self.next_id;
        let ghost mut d: nat = 0;
        let mut id = make_short_id(pos);
        loop
            invariant
                self == old(self),
                self.wf(),
                ids == ids_of(self@.instances),
                n0 == self@.next_id,
                pos < 1296,
                pos == (n0 + d) % 1296,
                d <= target,
                target < 1296,
                target == free_offset(ids, n0, 0),
                id@ == short_id(pos as nat),
                forall|k: nat| k < target ==> ids.contains(#[trigger] short_id((n0 + k) % 1296)),
                !ids.contains(short_id((n0 + target) % 1296)),
            ensures
                d == target,
                pos == (n0 + target) % 1296,
                id@ == short_id(pos as nat),
                self == old(self),
                self.wf(),
            decreases target - d,
        {
            match self.find(&id) {
                None => {
                    proof {
                        if d < target {
                            assert(ids.contains(short_id((n0 + d) % 1296)));
                        }
                    }
                    break;
                },
                Some(j) => {
                    proof {
                        assert(ids[j as int] == id@);
                        if d == target {
                            assert(ids.contains(id@));
                        }
                        d = d + 1;
                    }
                    pos = if pos + 1 == ID_COUNT { 0 } else { pos + 1 };
                    assert(pos == (n0 + d) % 1296) by (nonlinear_arith)
                        requires
                            d >= 1,
                            pos == (if (n0 + d - 1) % 1296 + 1 == 1296 { 0 } else { (n0 + d - 1) % 1296 + 1 }),
                    ;
                    id = make_short_id(pos);
                },
            }
        }
        assert(d == target);
        self.next_id = if pos + 1 == ID_COUNT { 0 } else { pos + 1 };
        assert(self.next_id == (n0 + target + 1) % 1296) by (nonlinear_arith)
            requires
                pos == (n0 + target) % 1296,
                self.next_id == (if pos + 1 == 1296 { 0 } else { pos + 1 }),
        ;
        id
    }

    /// Makes a terminal on `grid`, made at `created_at`, under a fresh
    /// identifier, unless the registry is full.
    pub fn create(&mut self, grid: TerminalGrid, created_at: String) -> (r: Result<String, String>)
        requires
            old(self).wf(),
            grid_fits_instance(grid@),
            old(self)@.instances.len() < old(self)@.max_instances ==> old(self)@.instances.len() < 1296,
        ensures
            final(self).wf(),
            old(self)@.instances.len() >= old(self)@.max_instances ==> (r matches Err(msg) && msg@ == limit_message(
                old(self)@.max_instances,
            ) && final(self)@ == old(self)@),
            old(self)@.instances.len() < old(self)@.max_instances ==> (r matches Ok(id) && {
                let n = old(self)@.next_id;
                let d = free_offset(ids_of(old(self)@.instances), n, 0);
                &&& id@ == short_id((n + d) % 1296)
                &&& !ids_of(old(self)@.instances).contains(id@)
                &&& final(self)@ == (RegistryView {
                    instances: old(self)@.instances.push(
                        InstanceView {
                            id: id@,
                            grid: grid@,
                            mouse: crate::input::mouse::MouseState { col: 0, row: 0 },
                            selection: None,
                            scroll_offset: 0,
                            events: Seq::empty(),
                            event_capacity: 100,
                            process_state: TerminalState::Running,
                            prev_state: TerminalState::Running,
                            created_at: created_at@,
                            running_command: None,
                        },
                    ),
                    next_id: (n + d + 1) % 1296,
                    ..old(self)@
                })
            }),
    {
        if self.instances.len() >= self.max_instances {
            let mut msg: Vec<char> = vec![
                'M', 'a', 'x', 'i', 'm', 'u', 'm', ' ', 'i', 'n', 's', 't', 'a', 'n', 'c', 'e', 's', ' ', '(',
            ];
            push_decimal(&mut msg, self.max_instances);
            push_chars(&mut msg, &vec![')', ' ', 'r', 'e', 'a', 'c', 'h', 'e', 'd']);
            assert(msg@ =~= limit_message(self@.max_instances));
            return Err(chars_to_string(&msg));
        }
        let id_chars = self.next_short_id();
        let id = chars_to_string(&id_chars);
        let id_copy = chars_to_string(&id_chars);
        let instance = TerminalInstance::new(id, grid, created_at);
        let ghost before = self.instances@;
        self.instances.push(instance);
        proof {
            assert(self@.instances =~= before.map_values(|t: TerminalInstance| t@).push(instance@));
            assert forall|i: int, j: int|
                0 <= i < self.instances@.len() && 0 <= j < self.instances@.len() && i != j implies (
                #[trigger] self.instances@[i])@.id != (#[trigger] self.instances@[j])@.id by {
                if i == before.len() as int {
                    assert(ids_of(old(self)@.instances)[j] == self.instances@[j]@.id);
                } else if j == before.len() as int {
                    assert(ids_of(old(self)@.instances)[i] == self.instances@[i]@.id);
                }
            }
        }
        Ok(id_copy)
    }

    /// The terminal with identifier `id`, if there is one.
    pub fn get(&self, id: &str) -> (r: Option<&TerminalInstance>)
        ensures
            r matches Some(t) ==> t@.id == id@ && self@.instances.contains(t@),
            r is None ==> !ids_of(self@.instances).contains(id@),
    {
        let key = chars_of(id);
        match self.find(&key) {
            Some(i) => {
                let t = &self.instances[i];
                assert(self@.instances[i as int] == t@);
                Some(t)
            },
            None => None,
        }
    }

    /// The terminal with identifier `id`, if there is one, to act on; the
    /// others stay as they are.
    pub fn get_mut(&mut self, id: &str) -> (r: Option<&mut TerminalInstance>)
        requires
            old(self).wf(),
        ensures
            r is None ==> !ids_of(old(self)@.instances).contains(id@) && final(self)@ == old(self)@,
            r matches Some(t) ==> exists|i: int|
                0 <= i < old(self)@.instances.len() && old(self)@.instances[i] == t@ && t@.id == id@
                    && final(self)@ == (RegistryView {
                    instances: old(self)@.instances.update(i, final(t)@),
                    ..old(self)@
                }),
            r matches Some(t) ==> (final(t).wf() && final(t)@.id == t@.id ==> final(self).wf()),
    {
        let key = chars_of(id);
        match self.find(&key) {
            Some(i) => {
                let ghost before = self.instances@;
                proof {
                    lemma_views_update(before, i as int);
                }
                let t = &mut self.instances[i];
                assert(old(self)@.instances[i as int] == t@);
                Some(t)
            },
            None => None,
        }
    }

    /// Removes the terminal with identifier `id`; whether there was one.
    pub fn destroy(&mut self, id: &str) -> (removed: bool)
        requires
            old(self).wf(),
        ensures
            final(self).wf(),
            removed == ids_of(old(self)@.instances).contains(id@),
            !removed ==> final(self)@ == old(self)@,
            removed ==> exists|i: int|
                0 <= i < old(self)@.instances.len() && old(self)@.instances[i].id == id@ && final(self)@
                    == (RegistryView { instances: old(self)@.instances.remove(i), ..old(self)@ }),
    {
        let key = chars_of(id);
        match self.find(&key) {
            Some(i) => {
                let ghost before = self.instances@;
                let _ = self.instances.remove(i);
                proof {
                    assert(self@.instances =~= old(self)@.instances.remove(i as int));
                    assert(ids_of(old(self)@.instances)[i as int] == id@);
                    assert forall|a: int, b: int|
                        0 <= a < self.instances@.len() && 0 <= b < self.instances@.len() && a != b implies (
                        #[trigger] self.instances@[a])@.id != (#[trigger] self.instances@[b])@.id by {
                        let a2 = if a < i { a } else { a + 1 };
                        let b2 = if b < i { b } else { b + 1 };
                        assert(self.instances@[a] == before[a2]);
                        assert(self.instances@[b] == before[b2]);
                    }
                }
                true
            },
            None => false,
        }
    }

    /// A summary of every terminal, in the order they were made.
    pub fn list(&self) -> (infos: Vec<TerminalInfo>)
        ensures
            infos@.len() == self@.instances.len(),
            forall|i: int| 0 <= i < infos@.len() ==> info_view(#[trigger] infos@[i]) == info_of(self@.instances[i]),
    {
        let mut infos: Vec<TerminalInfo> = Vec::new();
        let mut i: usize = 0;
        while i < self.instances.len()
            invariant
                i <= self.instances@.len(),
                infos@.len() == i,
                forall|k: int| 0 <= k < i ==> info_view(#[trigger] infos@[k]) == info_of(self@.instances[k]),
            decreases self.instances@.len() - i,
        {
            let inst = &self.instances[i];
            assert(self@.instances[i as int] == inst@);
            let info = TerminalInfo {
                id: inst.id().clone(),
                cols: inst.cols(),
                rows: inst.rows(),
                state: inst.state(),
                created_at: inst.created_at().clone(),
                running_command: inst.running_command(),
            };
            infos.push(info);
            i = i + 1;
        }
        infos
    }

    /// How many terminals there are.
    pub fn len(&self) -> (n: usize)
        ensures
            n == self@.instances.len(),
    {
        self.instances.len()
    }
}

impl Default for TerminalRegistry {
    fn default() -> (r: Self)
        ensures
            r.wf(),
            r@ == (RegistryView { instances: Seq::empty(), max_instances: 16, next_id: 0 }),
    {
        Self::new(16)
    }
}

} // verus!
