//! The "first steps" checklist: which tasks the user has ticked, and where
//! that state is kept.

use vstd::prelude::*;
use vstd::seq_lib::lemma_seq_contains_after_push;
use crate::text::{chars_of, ends_with, ends_with_chars, string_of, sub_vec};

verus! {

broadcast use vstd::string::group_string_axioms;

/// The ids of the checklist tasks that the user has marked as done, in the
/// order in which they were marked.
#[derive(Debug)]
pub struct FirstStepsState {
    pub completed: Vec<String>,
}

impl View for FirstStepsState {
    type V = Seq<Seq<char>>;

    open spec fn view(&self) -> Seq<Seq<char>> {
        self.completed@.map_values(|s: String| s@)
    }
}

impl FirstStepsState {
    /// A state with no task marked.
    pub fn new() -> (r: FirstStepsState)
        ensures
            r@ == Seq::<Seq<char>>::empty(),
    {
        let r = FirstStepsState { completed: Vec::new() };
        assert(r@ =~= Seq::<Seq<char>>::empty());
        r
    }
}

impl Default for FirstStepsState {
    /// A state with no task marked.
    fn default() -> (r: FirstStepsState)
        ensures
            r@ == Seq::<Seq<char>>::empty(),
    {
        FirstStepsState::new()
    }
}

/// `list` with every entry equal to `id` taken out, the others kept in order.
pub open spec fn without(list: Seq<Seq<char>>, id: Seq<char>) -> Seq<Seq<char>>
    decreases list.len(),
{
    if list.len() == 0 {
        list
    } else {
        let rest = without(list.drop_last(), id);
        if list.last() == id {
            rest
        } else {
            rest.push(list.last())
        }
    }
}

/// The list of completed task ids after marking `id` as done (`completed`) or
/// as not done: marking adds `id` at the end unless it is already there;
/// unmarking removes every occurrence of it.
pub open spec fn marked(list: Seq<Seq<char>>, id: Seq<char>, completed: bool) -> Seq<Seq<char>> {
    if completed {
        if list.contains(id) {
            list
        } else {
            list.push(id)
        }
    } else {
        without(list, id)
    }
}

/// Records that the task `id` is done (`completed`) or not done.
pub fn set_completed(state: &mut FirstStepsState, id: &str, completed: bool)
    ensures
        final(state)@ == marked(old(state)@, id@, completed),
{
    let id_string = id.to_string();
    let ghost before = state@;
    if completed {
        let mut i: usize = 0;
        while i < state.completed.len()
            invariant
                i <= state.completed.len(),
                completed,
                state@ == before,
                id_string@ == id@,
                forall|j: int| 0 <= j < i ==> before[j] != id@,
            decreases state.completed.len() - i,
        {
            if state.completed[i] == id_string {
                assert(before[i as int] == id@);
                assert(before.contains(id@));
                return;
            }
            i = i + 1;
        }
        state.completed.push(id_string);
        assert(state@ =~= before.push(id@));
    } else {
        let mut kept: Vec<String> = Vec::new();
        let mut i: usize = 0;
        while i < state.completed.len()
            invariant
                i <= state.completed.len(),
                state@ == before,
                id_string@ == id@,
                kept@.map_values(|s: String| s@) == without(before.take(i as int), id@),
            decreases state.completed.len() - i,
        {
            assert(before.take(i + 1).drop_last() =~= before.take(i as int));
            if state.completed[i] != id_string {
                kept.push(state.completed[i].clone());
                assert(kept@.map_values(|s: String| s@) =~= without(before.take(i + 1), id@));
            }
            i = i + 1;
        }
        assert(before.take(before.len() as int) =~= before);
        state.completed = kept;
    }
}


proof fn lemma_without_contains(list: Seq<Seq<char>>, id: Seq<char>, x: Seq<char>)
    ensures
        without(list, id).contains(x) <==> (list.contains(x) && x != id),
    decreases list.len(),
{
    if list.len() > 0 {
        let init = list.drop_last();
        lemma_without_contains(init, id, x);
        assert(list =~= init.push(list.last()));
        lemma_seq_contains_after_push(init, list.last(), x);
        if list.last() != id {
            lemma_seq_contains_after_push(without(init, id), list.last(), x);
        }
    }
}

proof fn lemma_without_absent(list: Seq<Seq<char>>, id: Seq<char>)
    requires
        !list.contains(id),
    ensures
        without(list, id) == list,
    decreases list.len(),
{
    if list.len() > 0 {
        let init = list.drop_last();
        if init.contains(id) {
            let k = choose|k: int| 0 <= k < init.len() && init[k] == id;
            assert(list[k] == id);
        }
        lemma_without_absent(init, id);
        assert(list[list.len() - 1] != id);
        assert(init.push(list.last()) =~= list);
    }
}

proof fn lemma_without_no_duplicates(list: Seq<Seq<char>>, id: Seq<char>)
    requires
        list.no_duplicates(),
    ensures
        without(list, id).no_duplicates(),
    decreases list.len(),
{
    if list.len() > 0 {
        let init = list.drop_last();
        assert(init.no_duplicates());
        lemma_without_no_duplicates(init, id);
        if list.last() != id {
            lemma_without_contains(init, id, list.last());
            if init.contains(list.last()) {
                let k = choose|k: int| 0 <= k < init.len() && init[k] == list.last();
                assert(list[k] == list[list.len() - 1]);
            }
            let rest = without(init, id);
            assert forall|i: int, j: int|
                0 <= i < rest.push(list.last()).len() && 0 <= j < rest.push(list.last()).len()
                    && i != j implies rest.push(list.last())[i] != rest.push(list.last())[j] by {
                if i < rest.len() && j < rest.len() {
                } else if i < rest.len() {
                    assert(rest.contains(rest[i]));
                } else if j < rest.len() {
                    assert(rest.contains(rest[j]));
                }
            }
        }
    }
}

/// Marking a task as done makes it count as done, and marking it as not done
/// makes it count as not done, whatever the list held before.
pub proof fn lemma_marked_membership(list: Seq<Seq<char>>, id: Seq<char>)
    ensures
        marked(list, id, true).contains(id),
        !marked(list, id, false).contains(id),
{
    if !list.contains(id) {
        assert(list.push(id)[list.len() as int] == id);
    }
    lemma_without_contains(list, id, id);
}

/// Marking or unmarking one task leaves the state of every other task as it
/// was.
pub proof fn lemma_marked_other_tasks(
    list: Seq<Seq<char>>,
    id: Seq<char>,
    completed: bool,
    other: Seq<char>,
)
    requires
        other != id,
    ensures
        marked(list, id, completed).contains(other) == list.contains(other),
{
    if completed {
        if !list.contains(id) {
            if list.contains(other) {
                let k = choose|k: int| 0 <= k < list.len() && list[k] == other;
                assert(list.push(id)[k] == other);
            }
            if list.push(id).contains(other) {
                let k = choose|k: int| 0 <= k < list.push(id).len() && list.push(id)[k] == other;
                assert(list[k] == other);
            }
        }
    } else {
        lemma_without_contains(list, id, other);
    }
}

/// Repeating a mark changes nothing: marking twice is marking once.
pub proof fn lemma_marked_idempotent(list: Seq<Seq<char>>, id: Seq<char>, completed: bool)
    ensures
        marked(marked(list, id, completed), id, completed) == marked(list, id, completed),
{
    lemma_marked_membership(list, id);
    if !completed {
        lemma_without_absent(without(list, id), id);
    }
}

/// A list in which no task occurs twice stays so under marking and unmarking.
pub proof fn lemma_marked_no_duplicates(list: Seq<Seq<char>>, id: Seq<char>, completed: bool)
    requires
        list.no_duplicates(),
    ensures
        marked(list, id, completed).no_duplicates(),
{
    if completed {
        if !list.contains(id) {
            let l = list.push(id);
            assert forall|i: int, j: int| 0 <= i < l.len() && 0 <= j < l.len() && i != j implies l[i]
                != l[j] by {
                if i < list.len() && j < list.len() {
                } else if i < list.len() {
                    assert(list.contains(list[i]));
                } else if j < list.len() {
                    assert(list.contains(list[j]));
                }
            }
        }
    } else {
        lemma_without_no_duplicates(list, id);
    }
}

/// Marking a task that was not done and then unmarking it gives back the
/// list as it was.
pub proof fn lemma_mark_then_unmark(list: Seq<Seq<char>>, id: Seq<char>)
    requires
        !list.contains(id),
    ensures
        marked(marked(list, id, true), id, false) == list,
{
    lemma_without_absent(list, id);
    assert(list.push(id).drop_last() =~= list);
}


/// The tasks of the checklist: an id and the title shown to the user.
pub open spec fn task_list() -> Seq<(Seq<char>, Seq<char>)> {
    seq![
        ("internet"@, "Conectarse a Internet"@),
        ("updates"@, "Buscar actualizaciones"@),
        ("wallpaper"@, "Elegir fondo de pantalla"@),
        ("display"@, "Revisar pantalla y escalado"@),
        ("apps"@, "Instalar aplicaciones"@),
        ("backups"@, "Configurar copias de seguridad"@),
        ("reboot"@, "Reiniciar después de actualizar, si es necesario"@),
    ]
}

/// The checklist's tasks, as `(id, title)` pairs in display order.
pub fn tasks() -> (r: Vec<(&'static str, &'static str)>)
    ensures
        r@.map_values(|t: (&'static str, &'static str)| (t.0@, t.1@)) == task_list(),
{
    let r = vec![
        ("internet", "Conectarse a Internet"),
        ("updates", "Buscar actualizaciones"),
        ("wallpaper", "Elegir fondo de pantalla"),
        ("display", "Revisar pantalla y escalado"),
        ("apps", "Instalar aplicaciones"),
        ("backups", "Configurar copias de seguridad"),
        ("reboot", "Reiniciar después de actualizar, si es necesario"),
    ];
    assert(r@.map_values(|t: (&'static str, &'static str)| (t.0@, t.1@)) =~= task_list());
    r
}

/// `s` with every `c` replaced by `by`.
pub open spec fn replace_char(s: Seq<char>, c: char, by: Seq<char>) -> Seq<char>
    decreases s.len(),
{
    if s.len() == 0 {
        s
    } else if s.last() == c {
        replace_char(s.drop_last(), c, by) + by
    } else {
        replace_char(s.drop_last(), c, by).push(s.last())
    }
}

/// A path that starts with `~` has each `~` replaced by the home directory;
/// any other path is taken as it is.
pub open spec fn home_expanded(path: Seq<char>, home: Seq<char>) -> Seq<char> {
    if path.len() > 0 && path[0] == '~' {
        replace_char(path, '~', home)
    } else {
        path
    }
}

/// Expands `~` in a configured path to the user's home directory `home`.
pub fn fix_path(path: &str, home: &str) -> (r: String)
    ensures
        r@ == home_expanded(path@, home@),
{
    let p = chars_of(path);
    if p.len() == 0 || p[0] != '~' {
        return path.to_string();
    }
    let h = chars_of(home);
    let mut out: Vec<char> = Vec::new();
    let mut i: usize = 0;
    while i < p.len()
        invariant
            i <= p.len(),
            p@ == path@,
            h@ == home@,
            out@ == replace_char(p@.take(i as int), '~', h@),
        decreases p.len() - i,
    {
        assert(p@.take(i + 1).drop_last() =~= p@.take(i as int));
        if p[i] == '~' {
            let mut j: usize = 0;
            let ghost start = out@;
            while j < h.len()
                invariant
                    j <= h.len(),
                    out@ == start + h@.take(j as int),
                decreases h.len() - j,
            {
                out.push(h[j]);
                j = j + 1;
                assert(out@ =~= start + h@.take(j as int));
            }
            assert(h@.take(h.len() as int) =~= h@);
        } else {
            out.push(p[i]);
        }
        i = i + 1;
    }
    assert(p@.take(p.len() as int) =~= p@);
    string_of(&out)
}

/// Where the checklist state is kept, next to the configuration file `base`:
/// a `.json` extension is replaced, any other name is extended.
pub open spec fn first_steps_file(base: Seq<char>) -> Seq<char> {
    let stem = if ends_with(base, ".json"@) {
        base.take(base.len() - ".json"@.len())
    } else {
        base
    };
    stem + "-first-steps.json"@
}

/// The checklist state file always carries the `-first-steps.json` ending, and
/// keeps everything of the configured name before a `.json` extension.
pub proof fn lemma_state_file_name(base: Seq<char>)
    ensures
        ends_with(first_steps_file(base), "-first-steps.json"@),
        ends_with(base, ".json"@) ==> first_steps_file(base).take(base.len() - ".json"@.len())
            == base.take(base.len() - ".json"@.len()),
        !ends_with(base, ".json"@) ==> first_steps_file(base).take(base.len() as int) == base,
{
    let f = first_steps_file(base);
    let suffix = "-first-steps.json"@;
    assert(f.skip(f.len() - suffix.len()) =~= suffix);
    if ends_with(base, ".json"@) {
        assert(f.take(base.len() - ".json"@.len()) =~= base.take(base.len() - ".json"@.len()));
    } else {
        assert(f.take(base.len() as int) =~= base);
    }
}

/// The path of the checklist state file for the configured path `base_path`.
pub fn state_path(base_path: &str, home: &str) -> (r: String)
    ensures
        r@ == first_steps_file(home_expanded(base_path@, home@)),
{
    let base = fix_path(base_path, home);
    let b = chars_of(base.as_str());
    let ext = chars_of(".json");
    let mut stem = if ends_with_chars(&b, &ext) {
        let s = sub_vec(&b, 0, b.len() - ext.len());
        assert(s@ =~= b@.take(b.len() - ext.len()));
        s
    } else {
        let s = sub_vec(&b, 0, b.len());
        assert(s@ =~= b@);
        s
    };
    let mut suffix = chars_of("-first-steps.json");
    stem.append(&mut suffix);
    string_of(&stem)
}

} // verus!
