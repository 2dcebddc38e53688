//! The symbol table: variable names bound to memory slots, and operand resolution.
use vstd::prelude::*;

use crate::text::{decimal, decimal_string, str_eq, views};

verus! {

/// The slot bound to `name`, if any.
pub open spec fn slot_of(names: Seq<Seq<char>>, name: Seq<char>) -> Option<nat> {
    if names.contains(name) {
        Some(names.index_of(name) as nat)
    } else {
        None
    }
}

/// Get-or-create: the table after binding `name`, and the slot that `name` has in it.
/// A new name takes the next slot, which is the number of names bound so far.
pub open spec fn alloc_spec(names: Seq<Seq<char>>, name: Seq<char>) -> (Seq<Seq<char>>, nat) {
    if names.contains(name) {
        (names, names.index_of(name) as nat)
    } else {
        (names.push(name), names.len())
    }
}

/// The generated expression that reads memory slot `slot`.
pub open spec fn mem_ref(slot: nat) -> Seq<char> {
    "mem["@ + decimal(slot) + "]"@
}

/// The expression that an operand token reads: nothing for an empty token, the
/// rest of the token verbatim for a literal marked by a leading `=`, a read of
/// the variable's slot for a bound name, and nothing for an unbound one.
pub open spec fn resolve_spec(names: Seq<Seq<char>>, tok: Seq<char>) -> Seq<char> {
    if tok.len() == 0 {
        Seq::empty()
    } else if tok[0] == '=' {
        tok.drop_first()
    } else {
        match slot_of(names, tok) {
            Some(slot) => mem_ref(slot),
            None => Seq::empty(),
        }
    }
}

/// Variable names in the order in which they were bound: a name's slot is its
/// position, so the number of names is also the next free slot.
pub struct SymbolTable {
    names: Vec<String>,
}

impl View for SymbolTable {
    type V = Seq<Seq<char>>;

    closed spec fn view(&self) -> Seq<Seq<char>> {
        views(self.names@)
    }
}

impl SymbolTable {
    /// Each name is bound to one slot only.
    pub open spec fn wf(&self) -> bool {
        self@.no_duplicates()
    }

    /// An empty table.
    pub fn new() -> (r: SymbolTable)
        ensures
            r@ == Seq::<Seq<char>>::empty(),
            r.wf(),
    {
        let r = SymbolTable { names: Vec::new() };
        assert(r@ == Seq::<Seq<char>>::empty());
        r
    }

    /// The number of bound names, which is the memory size of the generated program.
    pub fn len(&self) -> (r: usize)
        ensures
            r == self@.len(),
    {
        self.names.len()
    }

    /// The slot bound to `name`, if any; the table is left as it is.
    pub fn lookup(&self, name: &str) -> (r: Option<usize>)
        requires
            self.wf(),
        ensures
            r matches Some(i) ==> slot_of(self@, name@) == Some(i as nat),
            r is None ==> slot_of(self@, name@) is None,
    {
        let mut i: usize = 0;
        while i < self.names.len()
            invariant
                self.wf(),
                i <= self@.len(),
                self@.len() == self.names@.len(),
                forall|k: int| 0 <= k < i ==> self@[k] != name@,
            decreases self.names.len() - i,
        {
            if str_eq(self.names[i].as_str(), name) {
                assert(self@[i as int] == name@);
                assert(self@.contains(name@));
                let ghost j = self@.index_of(name@);
                assert(self@[j] == name@);
                return Some(i);
            }
            i += 1;
        }
        None
    }
}

/// Binds `loc` to the next free slot unless it is bound already, and returns its slot.
pub fn req_mem(table: &mut SymbolTable, loc: &str) -> (r: usize)
    requires
        old(table).wf(),
    ensures
        final(table).wf(),
        (final(table)@, r as nat) == alloc_spec(old(table)@, loc@),
{
    match table.lookup(loc) {
        Some(i) => i,
        None => {
            let slot = table.names.len();
            let ghost before = table.names@;
            table.names.push(loc.to_owned());
            assert(views(table.names@) == views(before).push(loc@));
            assert(table@ == old(table)@.push(loc@));
            slot
        },
    }
}

/// Resolves an operand token into the expression that it reads; the table is left as it is.
pub fn resolve_operand(table: &SymbolTable, loc: &str) -> (r: String)
    requires
        table.wf(),
    ensures
        r@ == resolve_spec(table@, loc@),
{
    let n = loc.unicode_len();
    if n == 0 {
        return String::new();
    }
    if loc.get_char(0) == '=' {
        return loc.substring_char(1, n).to_owned();
    }
    match table.lookup(loc) {
        Some(slot) => mem_ref_string(slot),
        None => String::new(),
    }
}

/// Writes the expression that reads memory slot `slot`.
pub fn mem_ref_string(slot: usize) -> (r: String)
    ensures
        r@ == mem_ref(slot as nat),
{
    let mut r = String::from_str("mem[");
    r.append(decimal_string(slot).as_str());
    r.append("]");
    r
}

/// The table after binding each of `targets` in turn, starting from `names`.
pub open spec fn alloc_all(names: Seq<Seq<char>>, targets: Seq<Seq<char>>) -> Seq<Seq<char>>
    decreases targets.len(),
{
    if targets.len() == 0 {
        names
    } else {
        alloc_spec(alloc_all(names, targets.drop_last()), targets.last()).0
    }
}

/// The slot handed out for `targets[k]` when `targets` are bound in turn from an
/// empty table.
pub open spec fn slot_given(targets: Seq<Seq<char>>, k: int) -> nat {
    alloc_spec(alloc_all(Seq::empty(), targets.subrange(0, k)), targets[k]).1
}

/// One binding keeps the table free of duplicates, keeps every earlier slot, and
/// leaves `name` at the slot that it returns.
proof fn lemma_alloc_step(names: Seq<Seq<char>>, name: Seq<char>)
    requires
        names.no_duplicates(),
    ensures
        alloc_spec(names, name).0.no_duplicates(),
        names.is_prefix_of(alloc_spec(names, name).0),
        alloc_spec(names, name).1 < alloc_spec(names, name).0.len(),
        alloc_spec(names, name).0[alloc_spec(names, name).1 as int] == name,
        forall|x: Seq<char>|
            alloc_spec(names, name).0.contains(x) <==> (names.contains(x) || x == name),
{
    let after = alloc_spec(names, name).0;
    if !names.contains(name) {
        assert(after[names.len() as int] == name);
        assert forall|x: Seq<char>| after.contains(x) implies (names.contains(x) || x == name) by {
            let i = choose|i: int| 0 <= i < after.len() && after[i] == x;
            if i < names.len() {
                assert(names[i] == x);
            }
        }
        assert forall|x: Seq<char>| (names.contains(x) || x == name) implies after.contains(x) by {
            if names.contains(x) {
                let i = choose|i: int| 0 <= i < names.len() && names[i] == x;
                assert(after[i] == x);
            }
        }
    }
    assert(names =~= after.subrange(0, names.len() as int));
}

/// Binding in turn keeps the table free of duplicates, holds exactly the names
/// seen, and only ever extends the table.
proof fn lemma_alloc_all(names: Seq<Seq<char>>, targets: Seq<Seq<char>>, k: int)
    requires
        names.no_duplicates(),
        0 <= k <= targets.len(),
    ensures
        alloc_all(names, targets).no_duplicates(),
        forall|x: Seq<char>|
            alloc_all(names, targets).contains(x) <==> (names.contains(x) || targets.contains(x)),
        alloc_all(names, targets.subrange(0, k)).is_prefix_of(alloc_all(names, targets)),
    decreases targets.len(),
{
    if targets.len() == 0 {
        assert(targets.subrange(0, k) =~= targets);
    } else {
        let rest = targets.drop_last();
        let before = alloc_all(names, rest);
        let after = alloc_all(names, targets);
        lemma_alloc_all(names, rest, if k < targets.len() { k } else { 0 });
        lemma_alloc_step(before, targets.last());
        assert forall|x: Seq<char>| targets.contains(x) <==> (rest.contains(x) || x == targets.last()) by {
            if targets.contains(x) {
                let i = choose|i: int| 0 <= i < targets.len() && targets[i] == x;
                if i < rest.len() {
                    assert(rest[i] == x);
                }
            }
            if rest.contains(x) {
                let i = choose|i: int| 0 <= i < rest.len() && rest[i] == x;
                assert(targets[i] == x);
            }
            if x == targets.last() {
                assert(targets[targets.len() - 1] == x);
            }
        }
        if k == targets.len() {
            assert(targets.subrange(0, k) =~= targets);
        } else {
            assert(rest.subrange(0, k) =~= targets.subrange(0, k));
            let mid = alloc_all(names, targets.subrange(0, k));
            assert(mid =~= after.subrange(0, mid.len() as int));
        }
    }
}

/// The final table holds `targets[k]` at the slot that it was given.
proof fn lemma_slot_kept(targets: Seq<Seq<char>>, k: int)
    requires
        0 <= k < targets.len(),
    ensures
        slot_given(targets, k) < alloc_all(Seq::empty(), targets).len(),
        alloc_all(Seq::empty(), targets)[slot_given(targets, k) as int] == targets[k],
{
    let empty = Seq::<Seq<char>>::empty();
    let pre = targets.subrange(0, k);
    assert(targets.subrange(0, k + 1).drop_last() =~= pre);
    assert(targets.subrange(0, k + 1).last() == targets[k]);
    lemma_alloc_all(empty, pre, 0);
    lemma_alloc_step(alloc_all(empty, pre), targets[k]);
    lemma_alloc_all(empty, targets, k + 1);
}

/// A name that has not appeared before gets the number of distinct names before it.
proof fn lemma_fresh_slot(targets: Seq<Seq<char>>, k: int)
    requires
        0 <= k < targets.len(),
        !targets.subrange(0, k).contains(targets[k]),
    ensures
        slot_given(targets, k) == targets.subrange(0, k).to_set().len(),
{
    let empty = Seq::<Seq<char>>::empty();
    let pre = targets.subrange(0, k);
    let table = alloc_all(empty, pre);
    lemma_alloc_all(empty, pre, 0);
    assert(!table.contains(targets[k]));
    assert forall|x: Seq<char>| table.to_set().contains(x) <==> pre.to_set().contains(x) by {
        assert(table.contains(x) <==> pre.contains(x));
    }
    assert(table.to_set() =~= pre.to_set());
    table.unique_seq_to_set();
}

/// Slots are handed out in order of first appearance and never change. Binding
/// `targets` in turn from an empty table gives a name that has not appeared before
/// the slot equal to the number of distinct names before it; every later
/// appearance of a name gets the slot of its first one; and the final table holds
/// each target at the slot that it was given.
pub proof fn lemma_slots_in_order_of_first_use(targets: Seq<Seq<char>>)
    ensures
        alloc_all(Seq::empty(), targets).no_duplicates(),
        forall|k: int|
            0 <= k < targets.len() && !targets.subrange(0, k).contains(#[trigger] targets[k])
                ==> slot_given(targets, k) == targets.subrange(0, k).to_set().len(),
        forall|j: int, k: int|
            0 <= j < k < targets.len() && targets[j] == targets[k] ==> #[trigger] slot_given(
                targets,
                j,
            ) == #[trigger] slot_given(targets, k),
        forall|k: int|
            0 <= k < targets.len() ==> alloc_all(Seq::empty(), targets)[#[trigger] slot_given(
                targets,
                k,
            ) as int] == targets[k],
{
    let fin = alloc_all(Seq::empty(), targets);
    lemma_alloc_all(Seq::empty(), targets, 0);
    assert forall|k: int| 0 <= k < targets.len() implies fin[#[trigger] slot_given(targets, k) as int]
        == targets[k] by {
        lemma_slot_kept(targets, k);
    }
    assert forall|k: int|
        0 <= k < targets.len() && !targets.subrange(0, k).contains(#[trigger] targets[k])
            implies slot_given(targets, k) == targets.subrange(0, k).to_set().len() by {
        lemma_fresh_slot(targets, k);
    }
    assert forall|j: int, k: int|
        0 <= j < k < targets.len() && targets[j] == targets[k] implies #[trigger] slot_given(
            targets,
            j,
        ) == #[trigger] slot_given(targets, k) by {
        lemma_slot_kept(targets, j);
        lemma_slot_kept(targets, k);
    }
}

/// Reading a name that no allocation has bound yields the empty expression.
pub proof fn lemma_unbound_read_is_empty(names: Seq<Seq<char>>, name: Seq<char>)
    requires
        !names.contains(name),
        !(name.len() > 0 && name[0] == '='),
    ensures
        resolve_spec(names, name) == Seq::<char>::empty(),
{
}

/// Resolution depends on the table's contents and the token alone: the same table
/// and the same token always give the same expression.
pub proof fn lemma_resolve_deterministic(a: SymbolTable, b: SymbolTable, x: Seq<char>, y: Seq<char>)
    requires
        a@ == b@,
        x == y,
    ensures
        resolve_spec(a@, x) == resolve_spec(b@, y),
{
}

} // verus!
