//! The registry: systems, operations and grids, each under its number.
use vstd::prelude::*;
use crate::crs::CrsDef;
use crate::operation::{
    CoordinateOperation, CoordinateOperationId, GridDefinition, OperationMethod, OperationStep,
};

verus! {

/// The first entry with the given number.
pub open spec fn entry<T>(entries: Seq<(u32, T)>, number: u32) -> Option<T>
    decreases entries.len(),
{
    if entries.len() == 0 {
        None
    } else if entries[0].0 == number {
        Some(entries[0].1)
    } else {
        entry(entries.drop_first(), number)
    }
}

/// Whether `operation` can be expanded into its steps, and those into theirs,
/// within `levels` levels. A step whose operation is missing counts as
/// expanded.
pub open spec fn expands_within(
    operations: Seq<(u32, CoordinateOperation)>,
    operation: CoordinateOperation,
    levels: nat,
) -> bool
    decreases levels,
{
    match operation.method {
        OperationMethod::Concatenated { steps } => levels > 0 && forall|i: int|
            0 <= i < steps@.len() ==> match entry(
                operations,
                (#[trigger] steps@[i]).operation_id.0,
            ) {
                Some(child) => expands_within(operations, child, (levels - 1) as nat),
                None => true,
            },
        _ => true,
    }
}

/// Whether no operation contains itself, directly or through its steps: a
/// chain of distinct operations is no longer than the table.
pub open spec fn acyclic(operations: Seq<(u32, CoordinateOperation)>) -> bool {
    forall|i: int|
        0 <= i < operations.len() ==> expands_within(
            operations,
            (#[trigger] operations[i]).1,
            operations.len(),
        )
}

proof fn lemma_entry<T>(entries: Seq<(u32, T)>, number: u32, i: int)
    requires
        0 <= i < entries.len(),
        entries[i].0 == number,
        forall|j: int| 0 <= j < i ==> (#[trigger] entries[j]).0 != number,
    ensures
        entry(entries, number) == Some(entries[i].1),
    decreases entries.len(),
{
    if i > 0 {
        assert(entries[0].0 != number);
        let rest = entries.drop_first();
        assert forall|j: int| 0 <= j < i - 1 implies (#[trigger] rest[j]).0 != number by {
            assert(rest[j] == entries[j + 1]);
        }
        lemma_entry(rest, number, i - 1);
    }
}

proof fn lemma_no_entry<T>(entries: Seq<(u32, T)>, number: u32)
    requires
        forall|j: int| 0 <= j < entries.len() ==> (#[trigger] entries[j]).0 != number,
    ensures
        entry(entries, number) is None,
    decreases entries.len(),
{
    if entries.len() > 0 {
        assert(entries[0].0 != number);
        let rest = entries.drop_first();
        assert forall|j: int| 0 <= j < rest.len() implies (#[trigger] rest[j]).0 != number by {
            assert(rest[j] == entries[j + 1]);
        }
        lemma_no_entry(rest, number);
    }
}

/// Every found entry stands somewhere in the table.
proof fn lemma_entry_stands<T>(entries: Seq<(u32, T)>, number: u32) -> (i: int)
    requires
        entry(entries, number) is Some,
    ensures
        0 <= i < entries.len(),
        entry(entries, number) == Some(entries[i].1),
    decreases entries.len(),
{
    if entries[0].0 == number {
        0
    } else {
        let rest = entries.drop_first();
        let j = lemma_entry_stands(rest, number);
        assert(rest[j] == entries[j + 1]);
        j + 1
    }
}

/// Where no operation contains itself, every operation expands, whether it is in
/// the table or only its steps are.
pub proof fn lemma_acyclic_expands(
    operations: Seq<(u32, CoordinateOperation)>,
    operation: CoordinateOperation,
)
    requires
        acyclic(operations),
    ensures
        expands_within(operations, operation, operations.len() + 1),
{
    if let OperationMethod::Concatenated { steps } = operation.method {
        assert forall|i: int| 0 <= i < steps@.len() implies match entry(
            operations,
            (#[trigger] steps@[i]).operation_id.0,
        ) {
            Some(child) => expands_within(operations, child, operations.len()),
            None => true,
        } by {
            let number = steps@[i].operation_id.0;
            if entry(operations, number) is Some {
                let at = lemma_entry_stands(operations, number);
                assert(expands_within(operations, operations[at].1, operations.len()));
            }
        }
    }
}

/// The position of the first entry with the given number.
fn position<T>(entries: &Vec<(u32, T)>, number: u32) -> (found: Option<usize>)
    ensures
        match found {
            Some(i) => i < entries@.len() && entry(entries@, number) == Some(entries@[i as int].1),
            None => entry(entries@, number) is None,
        },
{
    let mut i: usize = 0;
    while i < entries.len()
        invariant
            i <= entries@.len(),
            forall|j: int| 0 <= j < i ==> (#[trigger] entries@[j]).0 != number,
        decreases entries@.len() - i,
    {
        if entries[i].0 == number {
            proof {
                lemma_entry(entries@, number, i as int);
            }
            return Some(i);
        }
        i = i + 1;
    }
    proof {
        lemma_no_entry(entries@, number);
    }
    None
}

/// Whether every step is missing from the table or marked as expanded.
fn steps_marked(
    operations: &Vec<(u32, CoordinateOperation)>,
    steps: &Vec<OperationStep>,
    marked: &Vec<bool>,
    Ghost(levels): Ghost<nat>,
) -> (result: bool)
    requires
        marked@.len() == operations@.len(),
        forall|i: int|
            0 <= i < operations@.len() ==> (#[trigger] marked@[i] == expands_within(
                operations@,
                operations@[i].1,
                levels,
            )),
    ensures
        result == forall|i: int|
            0 <= i < steps@.len() ==> match entry(
                operations@,
                (#[trigger] steps@[i]).operation_id.0,
            ) {
                Some(child) => expands_within(operations@, child, levels),
                None => true,
            },
{
    let mut i: usize = 0;
    while i < steps.len()
        invariant
            i <= steps@.len(),
            marked@.len() == operations@.len(),
            forall|k: int|
                0 <= k < operations@.len() ==> (#[trigger] marked@[k] == expands_within(
                    operations@,
                    operations@[k].1,
                    levels,
                )),
            forall|k: int|
                0 <= k < i ==> match entry(operations@, (#[trigger] steps@[k]).operation_id.0) {
                    Some(child) => expands_within(operations@, child, levels),
                    None => true,
                },
        decreases steps@.len() - i,
    {
        let number: u32 = steps[i].operation_id.0;
        match position(operations, number) {
            Some(at) => {
                if !marked[at] {
                    assert(steps@[i as int].operation_id.0 == number);
                    return false;
                }
            },
            None => {},
        }
        i = i + 1;
    }
    true
}

/// Whether no operation of the table contains itself.
fn is_acyclic(operations: &Vec<(u32, CoordinateOperation)>) -> (result: bool)
    ensures
        result == acyclic(operations@),
{
    let n: usize = operations.len();
    let mut marked: Vec<bool> = Vec::new();
    let mut i: usize = 0;
    while i < n
        invariant
            i <= n == operations@.len(),
            marked@.len() == i,
            forall|k: int|
                0 <= k < i ==> (#[trigger] marked@[k] == expands_within(
                    operations@,
                    operations@[k].1,
                    0,
                )),
        decreases n - i,
    {
        let expanded: bool = match &operations[i].1.method {
            OperationMethod::Concatenated { steps: _ } => false,
            _ => true,
        };
        marked.push(expanded);
        i = i + 1;
    }
    let mut level: usize = 0;
    while level < n
        invariant
            level <= n == operations@.len(),
            marked@.len() == n,
            forall|k: int|
                0 <= k < n ==> (#[trigger] marked@[k] == expands_within(
                    operations@,
                    operations@[k].1,
                    level as nat,
                )),
        decreases n - level,
    {
        let mut next: Vec<bool> = Vec::new();
        let mut j: usize = 0;
        while j < n
            invariant
                j <= n == operations@.len(),
                level < n,
                marked@.len() == n,
                next@.len() == j,
                forall|k: int|
                    0 <= k < n ==> (#[trigger] marked@[k] == expands_within(
                        operations@,
                        operations@[k].1,
                        level as nat,
                    )),
                forall|k: int|
                    0 <= k < j ==> (#[trigger] next@[k] == expands_within(
                        operations@,
                        operations@[k].1,
                        (level + 1) as nat,
                    )),
            decreases n - j,
        {
            let expanded: bool = match &operations[j].1.method {
                OperationMethod::Concatenated { steps } => steps_marked(
                    operations,
                    steps,
                    &marked,
                    Ghost(level as nat),
                ),
                _ => true,
            };
            next.push(expanded);
            j = j + 1;
        }
        marked = next;
        level = level + 1;
    }
    let mut at: usize = 0;
    while at < n
        invariant
            at <= n == operations@.len(),
            marked@.len() == n,
            forall|k: int|
                0 <= k < n ==> (#[trigger] marked@[k] == expands_within(
                    operations@,
                    operations@[k].1,
                    n as nat,
                )),
            forall|k: int| 0 <= k < at ==> #[trigger] marked@[k],
        decreases n - at,
    {
        if !marked[at] {
            assert(!expands_within(operations@, operations@[at as int].1, n as nat));
            return false;
        }
        at = at + 1;
    }
    assert forall|k: int| 0 <= k < operations@.len() implies expands_within(
        operations@,
        (#[trigger] operations@[k]).1,
        operations@.len(),
    ) by {
        assert(marked@[k]);
    }
    true
}

/// Systems, operations and grids, each under its number. No operation contains
/// itself.
pub struct Registry {
    crs: Vec<(u32, CrsDef)>,
    operations: Vec<(u32, CoordinateOperation)>,
    grids: Vec<(u32, GridDefinition)>,
}

impl Registry {
    /// The systems, each with its EPSG code.
    pub closed spec fn crs(&self) -> Seq<(u32, CrsDef)> {
        self.crs@
    }

    /// The operations, each with its number.
    pub closed spec fn operations(&self) -> Seq<(u32, CoordinateOperation)> {
        self.operations@
    }

    /// The grids, each with its number.
    pub closed spec fn grids(&self) -> Seq<(u32, GridDefinition)> {
        self.grids@
    }

    /// No operation contains itself.
    #[verifier::type_invariant]
    pub open spec fn well_founded(&self) -> bool {
        acyclic(self.operations())
    }

    /// A registry of the given tables, or nothing if an operation contains
    /// itself.
    pub fn new(
        crs: Vec<(u32, CrsDef)>,
        operations: Vec<(u32, CoordinateOperation)>,
        grids: Vec<(u32, GridDefinition)>,
    ) -> (registry: Option<Registry>)
        ensures
            registry is Some <==> acyclic(operations@),
            registry matches Some(registry) ==> registry.crs() == crs@ && registry.operations()
                == operations@ && registry.grids() == grids@,
    {
        if is_acyclic(&operations) {
            Some(Registry { crs, operations, grids })
        } else {
            None
        }
    }

    /// The system with the given EPSG code.
    pub fn lookup_epsg(&self, code: u32) -> (found: Option<CrsDef>)
        ensures
            found == entry(self.crs(), code),
    {
        match position(&self.crs, code) {
            Some(i) => Some(self.crs[i].1),
            None => None,
        }
    }

    /// The operation with the given number.
    pub fn lookup_operation(&self, id: CoordinateOperationId) -> (found: Option<
        &CoordinateOperation,
    >)
        ensures
            match found {
                Some(operation) => entry(self.operations(), id.0) == Some(*operation),
                None => entry(self.operations(), id.0) is None,
            },
    {
        match position(&self.operations, id.0) {
            Some(i) => Some(&self.operations[i].1),
            None => None,
        }
    }

    /// The grid with the given number.
    pub fn lookup_grid_definition(&self, id: u32) -> (found: Option<&GridDefinition>)
        ensures
            match found {
                Some(grid) => entry(self.grids(), id) == Some(*grid),
                None => entry(self.grids(), id) is None,
            },
    {
        match position(&self.grids, id) {
            Some(i) => Some(&self.grids[i].1),
            None => None,
        }
    }
}

} // verus!
