//! Choosing the screen to watch.

use vstd::prelude::*;

verus! {

/// Whether `index` is the first screen that says it is the primary one; a screen
/// that cannot tell counts as another. `None` stands for no such screen.
pub open spec fn is_first_primary(primary: Seq<Option<bool>>, index: Option<usize>) -> bool {
    match index {
        Some(i) => {
            &&& i < primary.len()
            &&& primary[i as int] == Some(true)
            &&& forall|j: int| 0 <= j < i ==> #[trigger] primary[j] != Some(true)
        },
        None => forall|j: int| 0 <= j < primary.len() ==> #[trigger] primary[j] != Some(true),
    }
}

/// The first place in a list of `count` screens, if it has any.
pub open spec fn first_place(count: nat) -> Option<usize> {
    if count > 0 {
        Some(0usize)
    } else {
        None
    }
}

/// The first screen that says it is the primary one; a screen that cannot tell
/// counts as another. Where there is none, `first_of_fresh` chooses from a fresh
/// list.
pub fn get_primary_monitor(primary: &[Option<bool>]) -> (index: Option<usize>)
    ensures
        is_first_primary(primary@, index),
{
    let mut i: usize = 0;
    while i < primary.len()
        invariant
            i <= primary@.len(),
            forall|j: int| 0 <= j < i ==> #[trigger] primary@[j] != Some(true),
        decreases primary@.len() - i,
    {
        let is_primary: bool = match primary[i] {
            Some(p) => p,
            None => false,
        };
        if is_primary {
            return Some(i);
        }
        i = i + 1;
    }
    None
}

/// The screen to take from a fresh list of `count` screens where none was the
/// primary one: the first. There is none to take where the list is empty.
pub fn first_of_fresh(count: usize) -> (index: Option<usize>)
    ensures
        index == first_place(count as nat),
{
    if count > 0 {
        Some(0)
    } else {
        None
    }
}

/// Where both lists are the same, the first primary screen is taken, or the first
/// screen where none is primary; only an empty list leaves nothing to take.
pub proof fn law_screen_of_a_steady_list(primary: Seq<Option<bool>>, index: Option<usize>)
    requires
        is_first_primary(primary, index),
    ensures
        ({
            let taken = match index {
                Some(i) => Some(i),
                None => first_place(primary.len()),
            };
            &&& taken is None <==> primary.len() == 0
            &&& taken matches Some(i) ==> i < primary.len() && {
                ||| is_first_primary(primary, Some(i))
                ||| i == 0 && is_first_primary(primary, None)
            }
        }),
{
}

/// There is only one first primary screen.
pub proof fn law_first_primary_is_unique(
    primary: Seq<Option<bool>>,
    a: Option<usize>,
    b: Option<usize>,
)
    requires
        is_first_primary(primary, a),
        is_first_primary(primary, b),
    ensures
        a == b,
{
    if let (Some(i), Some(j)) = (a, b) {
        assert(primary[i as int] == Some(true) && primary[j as int] == Some(true));
    }
}

/// What the first primary screen is: one that says so, before any other that
/// does. There is none exactly where no screen says so.
pub proof fn law_first_primary_written_out(
    primary: Seq<Option<bool>>,
    index: Option<usize>,
    j: int,
)
    requires
        is_first_primary(primary, index),
        0 <= j < primary.len(),
        primary[j] == Some(true),
    ensures
        index matches Some(i) && i <= j && primary[i as int] == Some(true),
{
}

/// A list in which no screen says that it is the primary one has no first
/// primary screen.
pub proof fn law_no_primary_screen(primary: Seq<Option<bool>>, index: Option<usize>)
    requires
        is_first_primary(primary, index),
        forall|j: int| 0 <= j < primary.len() ==> #[trigger] primary[j] != Some(true),
    ensures
        index is None,
{
}

} // verus!
