//! The busy guard: which commands may run beside which.
use vstd::prelude::*;

use crate::text::{str_eq, texts};

verus! {

/// The group of a worker command.
#[derive(Clone, Copy, Debug, PartialEq, Eq, Structural)]
pub enum Group {
    /// Runs alone.
    Exclusive,
    /// Runs beside other groups, one command of the group at a time.
    Shared(u32),
}

/// The group of each worker command.
pub struct CommandGroups {
    pub entries: Vec<(String, Group)>,
}

/// The group of a command in a table.
pub open spec fn group_in(table: Seq<(String, Group)>, cmd: Seq<char>) -> Option<Group>
    decreases table.len(),
{
    if table.len() == 0 {
        None
    } else if table[0].0@ == cmd {
        Some(table[0].1)
    } else {
        group_in(table.drop_first(), cmd)
    }
}

impl CommandGroups {
    /// The group of a command; a command without one is not gated.
    pub open spec fn of(&self, cmd: Seq<char>) -> Option<Group> {
        group_in(self.entries@, cmd)
    }

    /// The group of a command.
    pub fn cmd_group(&self, cmd: &str) -> (r: Option<Group>)
        ensures
            r == self.of(cmd@),
    {
        let mut i: usize = 0;
        assert(self.entries@.subrange(0, self.entries@.len() as int) =~= self.entries@);
        while i < self.entries.len()
            invariant
                i <= self.entries.len(),
                self.of(cmd@) == group_in(
                    self.entries@.subrange(i as int, self.entries@.len() as int),
                    cmd@,
                ),
            decreases self.entries.len() - i,
        {
            let ghost rest = self.entries@.subrange(i as int, self.entries@.len() as int);
            assert(rest.drop_first() =~= self.entries@.subrange(
                i + 1,
                self.entries@.len() as int,
            ));
            if str_eq(self.entries[i].0.as_str(), cmd) {
                return Some(self.entries[i].1);
            }
            i = i + 1;
        }
        None
    }
}

/// Whether two groups exclude each other.
pub open spec fn conflict(a: Group, b: Group) -> bool {
    a == Group::Exclusive || b == Group::Exclusive || a == b
}

/// The first of `running` whose group is `g`.
pub open spec fn first_in_group(
    groups: &CommandGroups,
    running: Seq<Seq<char>>,
    g: Group,
) -> Option<Seq<char>>
    decreases running.len(),
{
    if running.len() == 0 {
        None
    } else if groups.of(running[0]) == Some(g) {
        Some(running[0])
    } else {
        first_in_group(groups, running.drop_first(), g)
    }
}

/// The running command that keeps `new_cmd` from starting: an exclusive one,
/// or any when `new_cmd` is exclusive, or one of the same group.
pub open spec fn blocker(
    groups: &CommandGroups,
    running: Seq<Seq<char>>,
    new_cmd: Seq<char>,
) -> Option<Seq<char>> {
    match groups.of(new_cmd) {
        None => None,
        Some(g) => if running.len() == 0 {
            None
        } else {
            match first_in_group(groups, running, Group::Exclusive) {
                Some(name) => Some(name),
                None => if g == Group::Exclusive {
                    Some(running[0])
                } else {
                    first_in_group(groups, running, g)
                },
            }
        },
    }
}

/// The refusal that names the running command.
pub open spec fn busy_text(name: Seq<char>) -> Seq<char> {
    "busy: "@ + name + " running \u{2014} send stop first"@
}

fn find_in_group(groups: &CommandGroups, running: &Vec<String>, g: Group) -> (r: Option<usize>)
    ensures
        match r {
            Some(i) => i < running.len() && first_in_group(
                groups,
                texts(running@),
                g,
            ) == Some(running@[i as int]@),
            None => first_in_group(groups, texts(running@), g) is None,
        },
{
    let ghost all = texts(running@);
    let mut i: usize = 0;
    assert(all.subrange(0, all.len() as int) =~= all);
    while i < running.len()
        invariant
            i <= running.len(),
            all == texts(running@),
            first_in_group(groups, all, g) == first_in_group(
                groups,
                all.subrange(i as int, all.len() as int),
                g,
            ),
        decreases running.len() - i,
    {
        let ghost rest = all.subrange(i as int, all.len() as int);
        assert(rest.drop_first() =~= all.subrange(i + 1, all.len() as int));
        assert(rest[0] == running@[i as int]@);
        match groups.cmd_group(running[i].as_str()) {
            Some(h) => {
                if h == g {
                    return Some(i);
                }
            },
            None => {},
        }
        i = i + 1;
    }
    None
}

/// The refusal of a command that conflicts with a running one, for the
/// running commands in any order.
pub fn check_busy(groups: &CommandGroups, running: &Vec<String>, new_cmd: &str) -> (r: Option<
    String,
>)
    ensures
        match r {
            Some(t) => blocker(groups, texts(running@), new_cmd@) is Some && t@
                == busy_text(blocker(groups, texts(running@), new_cmd@)->0),
            None => blocker(groups, texts(running@), new_cmd@) is None,
        },
{
    let new_group: Group = match groups.cmd_group(new_cmd) {
        None => return None,
        Some(g) => g,
    };
    if running.len() == 0 {
        return None;
    }
    let mut hit: Option<usize> = find_in_group(groups, running, Group::Exclusive);
    if hit.is_none() {
        if new_group == Group::Exclusive {
            hit = Some(0);
        } else {
            hit = find_in_group(groups, running, new_group);
        }
    }
    match hit {
        Some(i) => Some(
            "busy: ".to_owned().concat(running[i].as_str()).concat(
                " running \u{2014} send stop first",
            ),
        ),
        None => None,
    }
}

proof fn first_in_group_found(
    groups: &CommandGroups,
    running: Seq<Seq<char>>,
    g: Group,
)
    ensures
        first_in_group(groups, running, g) is Some <==> exists|i: int|
            0 <= i < running.len() && groups.of(#[trigger] running[i]) == Some(g),
    decreases running.len(),
{
    if running.len() > 0 {
        let rest = running.drop_first();
        first_in_group_found(groups, rest, g);
        if first_in_group(groups, running, g) is Some {
            if groups.of(running[0]) != Some(g) {
                let i = choose|i: int|
                    0 <= i < rest.len() && groups.of(#[trigger] rest[i]) == Some(g);
                assert(running[i + 1] == rest[i]);
            }
        } else {
            assert forall|i: int| 0 <= i < running.len() implies groups.of(#[trigger] running[i])
                != Some(g) by {
                if i > 0 {
                    assert(rest[i - 1] == running[i]);
                }
            }
        }
    }
}

/// Whether a running worker keeps a command of group `g` from starting: a
/// worker without a group stands in the way of an exclusive command only.
pub open spec fn bars(running: Option<Group>, g: Group) -> bool {
    match running {
        Some(h) => conflict(h, g),
        None => g == Group::Exclusive,
    }
}

/// A gated command is refused exactly when some running worker bars it;
/// conflict is symmetric, so that the order of starting does not matter.
pub proof fn refused_exactly_on_conflict(
    groups: &CommandGroups,
    running: Seq<Seq<char>>,
    new_cmd: Seq<char>,
    g: Group,
)
    requires
        groups.of(new_cmd) == Some(g),
    ensures
        blocker(groups, running, new_cmd) is Some <==> exists|i: int|
            0 <= i < running.len() && bars(groups.of(#[trigger] running[i]), g),
        forall|a: Group, b: Group| conflict(a, b) == conflict(b, a),
{
    first_in_group_found(groups, running, Group::Exclusive);
    first_in_group_found(groups, running, g);
    if blocker(groups, running, new_cmd) is Some {
        if first_in_group(groups, running, Group::Exclusive) is Some {
            let i = choose|i: int|
                0 <= i < running.len() && groups.of(#[trigger] running[i]) == Some(
                    Group::Exclusive,
                );
            assert(bars(groups.of(running[i]), g));
        } else if g == Group::Exclusive {
            assert(bars(groups.of(running[0]), g));
        } else {
            let i = choose|i: int|
                0 <= i < running.len() && groups.of(#[trigger] running[i]) == Some(g);
            assert(bars(groups.of(running[i]), g));
        }
    }
}

proof fn the_first_of_a_group(
    groups: &CommandGroups,
    running: Seq<Seq<char>>,
    g: Group,
)
    ensures
        first_in_group(groups, running, g) matches Some(name) ==> running.contains(name)
            && groups.of(name) == Some(g),
    decreases running.len(),
{
    if running.len() > 0 {
        let rest = running.drop_first();
        the_first_of_a_group(groups, rest, g);
        if groups.of(running[0]) == Some(g) {
            assert(running[0] == running[0]);
        } else if let Some(name) = first_in_group(groups, rest, g) {
            let k = choose|k: int| 0 <= k < rest.len() && rest[k] == name;
            assert(running[k + 1] == name);
        }
    }
}

/// The command that is named in a refusal is one that runs and bars the new
/// one; an exclusive one is named before any other. A command without a group
/// is never refused, and neither is any where nothing runs.
pub proof fn a_refusal_names_what_stands_in_the_way(
    groups: &CommandGroups,
    running: Seq<Seq<char>>,
    new_cmd: Seq<char>,
)
    ensures
        groups.of(new_cmd) is None ==> blocker(groups, running, new_cmd) is None,
        running.len() == 0 ==> blocker(groups, running, new_cmd) is None,
        blocker(groups, running, new_cmd) matches Some(name) ==> running.contains(name) && bars(
            groups.of(name),
            groups.of(new_cmd)->0,
        ),
        blocker(groups, running, new_cmd) matches Some(name) ==> (groups.of(name) == Some(
            Group::Exclusive,
        ) || forall|i: int|
            0 <= i < running.len() ==> groups.of(#[trigger] running[i]) != Some(Group::Exclusive)),
{
    first_in_group_found(groups, running, Group::Exclusive);
    the_first_of_a_group(groups, running, Group::Exclusive);
    if let Some(g) = groups.of(new_cmd) {
        the_first_of_a_group(groups, running, g);
        if running.len() > 0 {
            assert(running.contains(running[0]));
        }
    }
}

/// An exclusive command and any other exclude each other; two others do so
/// exactly where they are of one group.
pub proof fn groups_exclude_themselves_and_the_exclusive(a: u32, b: u32)
    ensures
        conflict(Group::Exclusive, Group::Exclusive),
        conflict(Group::Exclusive, Group::Shared(a)),
        conflict(Group::Shared(a), Group::Exclusive),
        conflict(Group::Shared(a), Group::Shared(b)) <==> a == b,
        bars(None, Group::Exclusive),
        !bars(None, Group::Shared(a)),
{
}

/// A command's group is that of its first entry in the table.
pub proof fn the_first_entry_is_the_group(
    table: Seq<(String, Group)>,
    cmd: Seq<char>,
    i: int,
)
    ensures
        0 <= i < table.len() && table[i].0@ == cmd && (forall|k: int|
            0 <= k < i ==> (#[trigger] table[k]).0@ != cmd) ==> group_in(table, cmd) == Some(
            table[i].1,
        ),
        (forall|k: int| 0 <= k < table.len() ==> (#[trigger] table[k]).0@ != cmd) ==> group_in(
            table,
            cmd,
        ) is None,
    decreases table.len(),
{
    if table.len() > 0 {
        let rest = table.drop_first();
        the_first_entry_is_the_group(rest, cmd, i - 1);
        if forall|k: int| 0 <= k < table.len() ==> (#[trigger] table[k]).0@ != cmd {
            assert(table[0].0@ != cmd);
            assert forall|k: int| 0 <= k < rest.len() implies (#[trigger] rest[k]).0@ != cmd by {
                assert(table[k + 1].0@ != cmd);
            }
        }
        if 0 < i < table.len() && (forall|k: int| 0 <= k < i ==> (#[trigger] table[k]).0@ != cmd) {
            assert(table[0].0@ != cmd);
            assert forall|k: int| 0 <= k < i - 1 implies (#[trigger] rest[k]).0@ != cmd by {
                assert(table[k + 1].0@ != cmd);
            }
        }
    }
}

} // verus!
