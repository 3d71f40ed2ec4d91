//! Which configurations and workloads to measure.

use vstd::prelude::*;

verus! {

/// A filter selects every name it is a prefix of, and no filter selects
/// everything.
pub open spec fn selects(filter: Option<Seq<char>>, name: Seq<char>) -> bool {
    match filter {
        Some(prefix) => prefix.is_prefix_of(name),
        None => true,
    }
}

/// The characters of an optional filter.
pub open spec fn filter_view(filter: Option<&str>) -> Option<Seq<char>> {
    match filter {
        Some(text) => Some(text@),
        None => None,
    }
}

fn starts_with(name: &str, prefix: &str) -> (found: bool)
    ensures
        found == prefix@.is_prefix_of(name@),
{
    let prefix_len: usize = prefix.unicode_len();
    if prefix_len > name.unicode_len() {
        return false;
    }
    let mut i: usize = 0;
    while i < prefix_len
        invariant
            i <= prefix_len,
            prefix_len == prefix@.len(),
            prefix_len <= name@.len(),
            forall|k: int| 0 <= k < i ==> prefix@[k] == name@[k],
        decreases prefix_len - i,
    {
        if prefix.get_char(i) != name.get_char(i) {
            proof {
                assert(name@.subrange(0, prefix@.len() as int)[i as int] != prefix@[i as int]);
            }
            return false;
        }
        i = i + 1;
    }
    proof {
        assert(prefix@ =~= name@.subrange(0, prefix@.len() as int));
    }
    true
}

/// Whether `filter` selects `name`. Prefixes are accepted, so that a name and
/// any shorthand of it select the same thing.
pub fn selected(filter: Option<&str>, name: &str) -> (chosen: bool)
    ensures
        chosen == selects(filter_view(filter), name@),
{
    match filter {
        Some(prefix) => starts_with(name, prefix),
        None => true,
    }
}

/// The workloads of the baseline.
#[derive(Clone, Copy, Debug, PartialEq, Eq, Structural)]
pub enum Workload {
    /// The empty guest: the floor everything else is relative to.
    Noop,
    /// The hashing loop.
    Keccak,
    /// Public-key recovery.
    Recover,
    /// The full update.
    Verify,
}

impl Workload {
    /// The workload's name.
    pub open spec fn spec_name(self) -> Seq<char> {
        match self {
            Workload::Noop => "noop"@,
            Workload::Keccak => "keccak"@,
            Workload::Recover => "recover"@,
            Workload::Verify => "verify"@,
        }
    }

    /// The workload's name.
    pub fn name(&self) -> (name: &'static str)
        ensures
            name@ == self.spec_name(),
    {
        match self {
            Workload::Noop => "noop",
            Workload::Keccak => "keccak",
            Workload::Recover => "recover",
            Workload::Verify => "verify",
        }
    }
}

/// All workloads, in the order they are measured.
pub open spec fn all_workloads() -> Seq<Workload> {
    seq![Workload::Noop, Workload::Keccak, Workload::Recover, Workload::Verify]
}

/// The workloads that `filter` selects, in the order they are measured.
pub fn selected_workloads(filter: Option<&str>) -> (chosen: Vec<Workload>)
    ensures
        chosen@ == all_workloads().filter(
            |workload: Workload| selects(filter_view(filter), workload.spec_name()),
        ),
{
    let all: [Workload; 4] = [
        Workload::Noop,
        Workload::Keccak,
        Workload::Recover,
        Workload::Verify,
    ];
    let ghost wanted = |workload: Workload|
        selects(filter_view(filter), workload.spec_name());
    let mut chosen: Vec<Workload> = Vec::new();
    proof {
        reveal(Seq::filter);
        assert(all@ =~= all_workloads());
        assert(all@.take(0) =~= Seq::empty());
    }
    let mut i: usize = 0;
    while i < 4
        invariant
            i <= 4,
            all@ == all_workloads(),
            wanted == (|workload: Workload|
                selects(filter_view(filter), workload.spec_name())),
            chosen@ == all@.take(i as int).filter(wanted),
        decreases 4 - i,
    {
        proof {
            reveal(Seq::filter);
            assert(all@.take(i + 1).drop_last() =~= all@.take(i as int));
        }
        if selected(filter, all[i].name()) {
            chosen.push(all[i]);
        }
        i = i + 1;
    }
    proof {
        assert(all@.take(4) =~= all@);
    }
    chosen
}

/// The full name of a workload selects that workload and no other.
pub proof fn law_full_name_selects_one(workload: Workload, other: Workload)
    ensures
        selects(Some(workload.spec_name()), other.spec_name()) <==> workload == other,
{
    reveal_strlit("noop");
    reveal_strlit("keccak");
    reveal_strlit("recover");
    reveal_strlit("verify");
    if workload == other {
        assert(workload.spec_name() =~= other.spec_name().subrange(
            0,
            workload.spec_name().len() as int,
        ));
    } else {
        assert(workload.spec_name()[0] != other.spec_name()[0]);
        if selects(Some(workload.spec_name()), other.spec_name()) {
            assert(other.spec_name().subrange(0, workload.spec_name().len() as int)[0]
                == other.spec_name()[0]);
        }
    }
}

/// Whatever a filter selects, every shorter filter that it begins with selects
/// too, down to the empty one, which selects everything like no filter at all.
pub proof fn law_shorthands_select(filter: Seq<char>, shorthand: Seq<char>, name: Seq<char>)
    requires
        shorthand.is_prefix_of(filter),
    ensures
        selects(Some(filter), name) ==> selects(Some(shorthand), name),
        selects(Some(Seq::empty()), name),
        selects(None, name),
{
    assert(Seq::<char>::empty() =~= name.subrange(0, 0));
    if selects(Some(filter), name) {
        assert(shorthand =~= name.subrange(0, shorthand.len() as int));
    }
}

/// A filter selects a name exactly when it is no longer than the name and agrees
/// with it character by character. So every prefix of any name selects it, its
/// full name among them, and no filter at all selects every name.
pub proof fn law_prefixes_select(filter: Option<&str>, name: Seq<char>)
    ensures
        filter is None ==> selects(filter_view(filter), name),
        filter matches Some(prefix) ==> (selects(filter_view(filter), name) <==> prefix@.len()
            <= name.len() && forall|j: int| 0 <= j < prefix@.len() ==> prefix@[j] == name[j]),
        selects(Some(name), name),
        forall|len: int| 0 <= len <= name.len() ==> selects(Some(#[trigger] name.take(len)), name),
{
    assert(name =~= name.subrange(0, name.len() as int));
    assert forall|len: int| 0 <= len <= name.len() implies selects(
        Some(#[trigger] name.take(len)),
        name,
    ) by {
        assert(name.take(len) =~= name.subrange(0, len));
    }
    if let Some(prefix) = filter {
        if prefix@.len() <= name.len() {
            let head = name.subrange(0, prefix@.len() as int);
            if forall|j: int| 0 <= j < prefix@.len() ==> prefix@[j] == name[j] {
                assert(prefix@ =~= head);
            } else if prefix@ == head {
                assert forall|j: int| 0 <= j < prefix@.len() implies prefix@[j] == name[j] by {
                    assert(head[j] == name[j]);
                }
            }
        }
    }
}

/// What is measured under a filter: of the empty guest, hashing, recovery and
/// the full update, in this order, each whose name the filter selects.
pub proof fn law_selected_in_order(filter: Option<Seq<char>>)
    ensures
        all_workloads().filter(|workload: Workload| selects(filter, workload.spec_name())) == (
        if selects(filter, "noop"@) {
            seq![Workload::Noop]
        } else {
            seq![]
        }) + (if selects(filter, "keccak"@) {
            seq![Workload::Keccak]
        } else {
            seq![]
        }) + (if selects(filter, "recover"@) {
            seq![Workload::Recover]
        } else {
            seq![]
        }) + (if selects(filter, "verify"@) {
            seq![Workload::Verify]
        } else {
            seq![]
        }),
{
    let wanted = |workload: Workload| selects(filter, workload.spec_name());
    let all = all_workloads();
    reveal_with_fuel(Seq::filter, 6);
    assert(all.drop_last() =~= seq![Workload::Noop, Workload::Keccak, Workload::Recover]);
    assert(all.drop_last().drop_last() =~= seq![Workload::Noop, Workload::Keccak]);
    assert(all.drop_last().drop_last().drop_last() =~= seq![Workload::Noop]);
    assert(all.drop_last().drop_last().drop_last().drop_last() =~= Seq::empty());
    assert(all.filter(wanted) =~= (if selects(filter, "noop"@) {
        seq![Workload::Noop]
    } else {
        seq![]
    }) + (if selects(filter, "keccak"@) {
        seq![Workload::Keccak]
    } else {
        seq![]
    }) + (if selects(filter, "recover"@) {
        seq![Workload::Recover]
    } else {
        seq![]
    }) + (if selects(filter, "verify"@) {
        seq![Workload::Verify]
    } else {
        seq![]
    }));
}

} // verus!
