//! Plans as text, for reading.

use vstd::prelude::*;
use vstd::string::StringExecFns;
use crate::ids::{hex_text, key_text, ObjectId, Oid};
use crate::keyset::SetItem;
use crate::plan::{task_views, Plan, PlanView};
use crate::status::PlanStatus;
use crate::task::{Task, TaskView};

verus! {

/// The ten digits that numbers are written with.
pub open spec fn decimal_digits() -> Seq<char> {
    seq!['0', '1', '2', '3', '4', '5', '6', '7', '8', '9']
}

/// A number as text: its decimal digits, no zero in front.
pub open spec fn decimal(n: nat) -> Seq<char>
    decreases n,
{
    if n < 10 {
        seq![decimal_digits()[n as int]]
    } else {
        decimal(n / 10).push(decimal_digits()[(n % 10) as int])
    }
}

/// A digit as text.
fn digit_text(d: usize) -> (s: &'static str)
    requires
        d < 10,
    ensures
        s@ == seq![decimal_digits()[d as int]],
{
    proof {
        reveal_strlit("0");
        reveal_strlit("1");
        reveal_strlit("2");
        reveal_strlit("3");
        reveal_strlit("4");
        reveal_strlit("5");
        reveal_strlit("6");
        reveal_strlit("7");
        reveal_strlit("8");
        reveal_strlit("9");
        assert("0"@ =~= seq!['0']);
        assert("1"@ =~= seq!['1']);
        assert("2"@ =~= seq!['2']);
        assert("3"@ =~= seq!['3']);
        assert("4"@ =~= seq!['4']);
        assert("5"@ =~= seq!['5']);
        assert("6"@ =~= seq!['6']);
        assert("7"@ =~= seq!['7']);
        assert("8"@ =~= seq!['8']);
        assert("9"@ =~= seq!['9']);
    }
    if d == 0 {
        "0"
    } else if d == 1 {
        "1"
    } else if d == 2 {
        "2"
    } else if d == 3 {
        "3"
    } else if d == 4 {
        "4"
    } else if d == 5 {
        "5"
    } else if d == 6 {
        "6"
    } else if d == 7 {
        "7"
    } else if d == 8 {
        "8"
    } else {
        "9"
    }
}

/// A number as text: its decimal digits, no zero in front.
pub fn decimal_text(n: usize) -> (s: String)
    ensures
        s@ == decimal(n as nat),
    decreases n,
{
    if n < 10 {
        String::from_str(digit_text(n))
    } else {
        let mut s = decimal_text(n / 10);
        let ghost before = s@;
        s.append(digit_text(n % 10));
        assert(s@ =~= before.push(decimal_digits()[(n % 10) as int]));
        s
    }
}

/// The name of a status as plans show it.
pub open spec fn status_label(status: PlanStatus) -> Seq<char> {
    match status {
        PlanStatus::Draft => "Draft"@,
        PlanStatus::Approved => "Approved"@,
        PlanStatus::InProgress => "InProgress"@,
        PlanStatus::Completed => "Completed"@,
        PlanStatus::Archived => "Archived"@,
    }
}

/// The lines of one task: a box that is ticked when the task is done, the
/// subject, the estimate if there is one, and below that the description
/// if there is one that is not empty.
pub open spec fn task_lines(t: TaskView) -> Seq<char> {
    "- "@ + (if t.is_done() {
        "[x]"@
    } else {
        "[ ]"@
    }) + " "@ + t.subject + (match t.estimate {
        Some(e) => " _("@ + e + ")"@,
        None => Seq::empty(),
    }) + "\n"@ + (match t.description {
        Some(d) => if d.len() > 0 {
            "  - "@ + d + "\n"@
        } else {
            Seq::empty()
        },
        None => Seq::empty(),
    })
}

/// The lines of each task in turn.
pub open spec fn tasks_text(tasks: Seq<TaskView>) -> Seq<char>
    decreases tasks.len(),
{
    if tasks.len() == 0 {
        Seq::empty()
    } else {
        tasks_text(tasks.drop_last()) + task_lines(tasks.last())
    }
}

/// A line for each id in turn, the id in hexadecimal.
pub open spec fn ids_text(keys: Seq<Seq<u8>>) -> Seq<char>
    decreases keys.len(),
{
    if keys.len() == 0 {
        Seq::empty()
    } else {
        ids_text(keys.drop_last()) + ("- "@ + hex_text(keys.last()) + "\n"@)
    }
}

/// A heading and the ids below it; nothing where there are no ids.
pub open spec fn linked_text(heading: Seq<char>, keys: Seq<Seq<u8>>) -> Seq<char> {
    if keys.len() == 0 {
        Seq::empty()
    } else {
        heading + ids_text(keys)
    }
}

/// A plan as markdown: the title, the id, the status and the author, the
/// description if there is one, the tasks, and the issues and patches that
/// the plan is linked to.
pub open spec fn markdown(id: Seq<char>, author: Seq<char>, plan: PlanView) -> Seq<char> {
    "# "@ + plan.title + "\n\n"@ + "**ID:** "@ + id + "\n"@ + "**Status:** "@ + status_label(
        plan.status,
    ) + "\n"@ + "**Author:** "@ + author + "\n\n"@ + (if plan.description.len() > 0 {
        "## Description\n\n"@ + plan.description + "\n\n"@
    } else {
        Seq::empty()
    }) + "## Tasks ("@ + decimal(plan.tasks.len()) + ")\n\n"@ + tasks_text(plan.tasks)
        + linked_text("\n## Linked Issues\n\n"@, plan.related_issues) + linked_text(
        "\n## Linked Patches\n\n"@,
        plan.related_patches,
    )
}

/// The name of a status as plans show it.
pub fn status_name(status: &PlanStatus) -> (s: &'static str)
    ensures
        s@ == status_label(*status),
{
    match status {
        PlanStatus::Draft => "Draft",
        PlanStatus::Approved => "Approved",
        PlanStatus::InProgress => "InProgress",
        PlanStatus::Completed => "Completed",
        PlanStatus::Archived => "Archived",
    }
}

/// The lines of one task.
pub fn task_markdown(task: &Task) -> (s: String)
    ensures
        s@ == task_lines(task@),
{
    let mut s = String::from_str("- ");
    s.append(if task.is_done() { "[x]" } else { "[ ]" });
    s.append(" ");
    s.append(task.subject.as_str());
    match &task.estimate {
        Some(e) => {
            let mut part = String::from_str(" _(");
            part.append(e.as_str());
            part.append(")");
            s.append(part.as_str());
        },
        None => {
            assert(s@ + Seq::<char>::empty() =~= s@);
        },
    }
    s.append("\n");
    let ghost head = s@;
    match &task.description {
        Some(d) => {
            if d.as_str().unicode_len() > 0 {
                let mut part = String::from_str("  - ");
                part.append(d.as_str());
                part.append("\n");
                s.append(part.as_str());
            } else {
                assert(head + Seq::<char>::empty() =~= head);
            }
        },
        None => {
            assert(head + Seq::<char>::empty() =~= head);
        },
    }
    s
}

/// A heading and a line for each id below it; nothing where there are no
/// ids.
pub fn linked_markdown(heading: &str, ids: &[ObjectId]) -> (s: String)
    ensures
        s@ == linked_text(heading@, Seq::new(ids@.len(), |i: int| ids@[i].key())),
{
    let ghost keys = Seq::new(ids@.len(), |i: int| ids@[i].key());
    if ids.len() == 0 {
        return String::new();
    }
    let mut lines = String::new();
    let mut i: usize = 0;
    while i < ids.len()
        invariant
            i <= ids@.len(),
            keys == Seq::new(ids@.len(), |i: int| ids@[i].key()),
            lines@ == ids_text(keys.take(i as int)),
        decreases ids@.len() - i,
    {
        proof {
            assert(keys.take(i + 1).drop_last() =~= keys.take(i as int));
            assert(keys.take(i + 1).last() == ids@[i as int].bytes@);
        }
        let mut line = String::from_str("- ");
        line.append(ids[i].to_string().as_str());
        line.append("\n");
        lines.append(line.as_str());
        i += 1;
    }
    assert(keys.take(i as int) =~= keys);
    let mut s = String::from_str(heading);
    s.append(lines.as_str());
    s
}

/// Export a plan as markdown.
pub fn export_markdown(id: &Oid, plan: &Plan) -> (s: String)
    ensures
        s@ == markdown(
            hex_text(id.bytes@),
            "did:key:"@ + key_text(plan@.author.id.key.bytes@),
            plan@,
        ),
{
    let mut out = String::from_str("# ");
    out.append(plan.title());
    out.append("\n\n");
    out.append("**ID:** ");
    out.append(id.to_string().as_str());
    out.append("\n");
    out.append("**Status:** ");
    out.append(status_name(plan.status()));
    out.append("\n");
    out.append("**Author:** ");
    out.append(plan.author().id.to_string().as_str());
    out.append("\n\n");
    if plan.description().unicode_len() > 0 {
        let mut part = String::from_str("## Description\n\n");
        part.append(plan.description());
        part.append("\n\n");
        out.append(part.as_str());
    } else {
        assert(out@ + Seq::<char>::empty() =~= out@);
    }
    out.append("## Tasks (");
    out.append(decimal_text(plan.tasks().len()).as_str());
    out.append(")\n\n");

    let tasks = plan.tasks();
    let ghost views = task_views(tasks@);
    let mut lines = String::new();
    let mut i: usize = 0;
    while i < tasks.len()
        invariant
            i <= tasks@.len(),
            views == task_views(tasks@),
            lines@ == tasks_text(views.take(i as int)),
        decreases tasks@.len() - i,
    {
        proof {
            assert(views.take(i + 1).drop_last() =~= views.take(i as int));
            assert(views.take(i + 1).last() == tasks@[i as int]@);
        }
        lines.append(task_markdown(&tasks[i]).as_str());
        i += 1;
    }
    assert(views.take(i as int) =~= views);
    out.append(lines.as_str());

    let issues = plan.related_issues();
    assert(Seq::new(issues@.len(), |i: int| issues@[i].key()) =~= plan@.related_issues);
    out.append(linked_markdown("\n## Linked Issues\n\n", issues).as_str());
    let patches = plan.related_patches();
    assert(Seq::new(patches@.len(), |i: int| patches@[i].key()) =~= plan@.related_patches);
    out.append(linked_markdown("\n## Linked Patches\n\n", patches).as_str());
    out
}

} // verus!
