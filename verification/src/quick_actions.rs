//! Quick actions that open system tools, and the local documentation.

use vstd::prelude::*;
use crate::text::{
    chars_of, contains_string, find_first_in, first_in, lemma_first_in_is_first, string_of,
    string_views,
};

verus! {

broadcast use vstd::string::group_string_axioms;

/// A button of the quick-actions grid: an id, its label, and the command
/// lines that can carry it out, in order of preference.
#[derive(Clone, Debug)]
pub struct QuickAction {
    pub id: String,
    pub label: String,
    pub commands: Vec<Vec<String>>,
}

/// A quick action as plain values.
#[verifier::ext_equal]
pub struct QuickActionView {
    pub id: Seq<char>,
    pub label: Seq<char>,
    pub commands: Seq<Seq<Seq<char>>>,
}

/// The command lines of a vector of commands, each as its words.
pub open spec fn command_views(v: Seq<Vec<String>>) -> Seq<Seq<Seq<char>>> {
    v.map_values(|c: Vec<String>| string_views(c@))
}

impl View for QuickAction {
    type V = QuickActionView;

    open spec fn view(&self) -> QuickActionView {
        QuickActionView { id: self.id@, label: self.label@, commands: command_views(self.commands@) }
    }
}

fn make_command(words: &Vec<&str>) -> (r: Vec<String>)
    ensures
        string_views(r@) == words@.map_values(|w: &str| w@),
{
    let mut r: Vec<String> = Vec::new();
    let mut i: usize = 0;
    while i < words.len()
        invariant
            i <= words.len(),
            string_views(r@) == words@.take(i as int).map_values(|w: &str| w@),
        decreases words.len() - i,
    {
        let w: &str = words[i];
        let owned = w.to_string();
        r.push(owned);
        assert(words@.take(i + 1).map_values(|w: &str| w@) =~= words@.take(i as int).map_values(
            |w: &str| w@,
        ).push(words@[i as int]@));
        assert(string_views(r@) =~= words@.take(i + 1).map_values(|w: &str| w@));
        i = i + 1;
    }
    assert(words@.take(words.len() as int) =~= words@);
    r
}

fn make_action(id: &str, label: &str, commands: Vec<Vec<&str>>) -> (r: QuickAction)
    ensures
        r@ == (QuickActionView {
            id: id@,
            label: label@,
            commands: commands@.map_values(|c: Vec<&str>| c@.map_values(|w: &str| w@)),
        }),
{
    let mut cs: Vec<Vec<String>> = Vec::new();
    let mut i: usize = 0;
    while i < commands.len()
        invariant
            i <= commands.len(),
            command_views(cs@) == commands@.take(i as int).map_values(
                |c: Vec<&str>| c@.map_values(|w: &str| w@),
            ),
        decreases commands.len() - i,
    {
        let ghost before = command_views(cs@);
        let c = make_command(&commands[i]);
        cs.push(c);
        assert(command_views(cs@) =~= before.push(commands@[i as int]@.map_values(|w: &str| w@)));
        assert(commands@.take(i + 1).map_values(|c: Vec<&str>| c@.map_values(|w: &str| w@))
            =~= commands@.take(i as int).map_values(|c: Vec<&str>| c@.map_values(|w: &str| w@)).push(
            commands@[i as int]@.map_values(|w: &str| w@),
        ));
        i = i + 1;
    }
    assert(commands@.take(commands.len() as int) =~= commands@);
    QuickAction { id: id.to_string(), label: label.to_string(), commands: cs }
}

/// The quick actions, in display order.
pub open spec fn quick_action_list() -> Seq<QuickActionView> {
    seq![
        QuickActionView {
            id: "settings"@,
            label: "Abrir Ajustes"@,
            commands: seq![seq!["systemsettings"@], seq!["systemsettings6"@], seq!["systemsettings5"@]],
        },
        QuickActionView {
            id: "updates"@,
            label: "Buscar actualizaciones"@,
            commands: seq![
                seq!["plasma-discover"@, "--mode"@, "Update"@],
                seq!["discover"@, "--mode"@, "Update"@],
            ],
        },
        QuickActionView {
            id: "packages"@,
            label: "Abrir gestor de paquetes"@,
            commands: seq![
                seq!["pamac-manager"@],
                seq!["octopi"@],
                seq!["plasma-discover"@],
                seq!["discover"@],
            ],
        },
        QuickActionView {
            id: "system-info"@,
            label: "Información del sistema"@,
            commands: seq![seq!["kinfocenter"@], seq!["systemsettings"@, "kcm_about-distro"@]],
        },
        QuickActionView {
            id: "display"@,
            label: "Configurar pantallas"@,
            commands: seq![seq!["systemsettings"@, "kcm_kscreen"@], seq!["kscreen-doctor"@]],
        },
        QuickActionView {
            id: "network"@,
            label: "Configurar red"@,
            commands: seq![
                seq!["systemsettings"@, "kcm_networkmanagement"@],
                seq!["nm-connection-editor"@],
            ],
        },
    ]
}

/// The quick actions offered to the user.
pub fn quick_actions() -> (r: Vec<QuickAction>)
    ensures
        r@.map_values(|a: QuickAction| a@) == quick_action_list(),
{
    let r = vec![
        make_action(
            "settings",
            "Abrir Ajustes",
            vec![vec!["systemsettings"], vec!["systemsettings6"], vec!["systemsettings5"]],
        ),
        make_action(
            "updates",
            "Buscar actualizaciones",
            vec![vec!["plasma-discover", "--mode", "Update"], vec!["discover", "--mode", "Update"]],
        ),
        make_action(
            "packages",
            "Abrir gestor de paquetes",
            vec![vec!["pamac-manager"], vec!["octopi"], vec!["plasma-discover"], vec!["discover"]],
        ),
        make_action(
            "system-info",
            "Información del sistema",
            vec![vec!["kinfocenter"], vec!["systemsettings", "kcm_about-distro"]],
        ),
        make_action(
            "display",
            "Configurar pantallas",
            vec![vec!["systemsettings", "kcm_kscreen"], vec!["kscreen-doctor"]],
        ),
        make_action(
            "network",
            "Configurar red",
            vec![vec!["systemsettings", "kcm_networkmanagement"], vec!["nm-connection-editor"]],
        ),
    ];
    assert(r@.map_values(|a: QuickAction| a@) =~~= quick_action_list());
    r
}


/// The command line `cmd` can be run: its program is among `available`.
pub open spec fn runnable(cmd: Seq<Seq<char>>, available: Seq<Seq<char>>) -> bool {
    cmd.len() > 0 && available.contains(cmd[0])
}

/// The position of the first runnable command line.
pub open spec fn first_runnable(commands: Seq<Seq<Seq<char>>>, available: Seq<Seq<char>>) -> Option<
    int,
>
    decreases commands.len(),
{
    if commands.len() == 0 {
        None
    } else {
        match first_runnable(commands.drop_last(), available) {
            Some(i) => Some(i),
            None => if runnable(commands.last(), available) {
                Some(commands.len() - 1)
            } else {
                None
            },
        }
    }
}

/// A command line without a program is never tried: a runnable one comes
/// before it.
pub open spec fn empty_commands_unreached(
    commands: Seq<Seq<Seq<char>>>,
    available: Seq<Seq<char>>,
) -> bool {
    forall|i: int|
        0 <= i < commands.len() && (#[trigger] commands[i]).len() == 0 ==> first_runnable(
            commands.take(i),
            available,
        ) is Some
}

/// The command chosen is runnable and no command before it is; nothing is
/// chosen only when no command is runnable.
pub proof fn lemma_first_runnable_is_first(
    commands: Seq<Seq<Seq<char>>>,
    available: Seq<Seq<char>>,
)
    ensures
        first_runnable(commands, available) matches Some(i) ==> 0 <= i < commands.len()
            && runnable(commands[i], available) && forall|j: int|
            0 <= j < i ==> !runnable(#[trigger] commands[j], available),
        first_runnable(commands, available) is None ==> forall|j: int|
            0 <= j < commands.len() ==> !runnable(#[trigger] commands[j], available),
    decreases commands.len(),
{
    if commands.len() > 0 {
        let init = commands.drop_last();
        lemma_first_runnable_is_first(init, available);
        assert forall|j: int| 0 <= j < init.len() implies #[trigger] commands[j] == init[j] by {}
    }
}

/// The command line chosen for an action starts with a program that is
/// literally one of the available names, and every command line before it
/// either has no program or a program that is not available; nothing is
/// chosen only when no command line's program is available.
pub proof fn lemma_chosen_program_is_available(
    commands: Seq<Seq<Seq<char>>>,
    available: Seq<Seq<char>>,
)
    ensures
        first_runnable(commands, available) matches Some(i) ==> {
            &&& 0 <= i < commands.len()
            &&& commands[i].len() > 0
            &&& exists|k: int| 0 <= k < available.len() && available[k] == commands[i][0]
            &&& forall|j: int|
                0 <= j < i ==> (#[trigger] commands[j]).len() == 0 || forall|k: int|
                    0 <= k < available.len() ==> available[k] != commands[j][0]
        },
        first_runnable(commands, available) is None ==> forall|j: int|
            0 <= j < commands.len() ==> (#[trigger] commands[j]).len() == 0 || forall|k: int|
                0 <= k < available.len() ==> available[k] != commands[j][0],
{
    lemma_first_runnable_is_first(commands, available);
    let bound = match first_runnable(commands, available) {
        Some(i) => i,
        None => commands.len() as int,
    };
    match first_runnable(commands, available) {
        Some(i) => {
            let k = choose|k: int| 0 <= k < available.len() && available[k] == commands[i][0];
        },
        None => {},
    }
    assert forall|j: int| 0 <= j < bound implies (#[trigger] commands[j]).len() == 0 || forall|k: int|
        0 <= k < available.len() ==> available[k] != commands[j][0] by {
        if commands[j].len() > 0 {
            assert forall|k: int| 0 <= k < available.len() implies available[k] != commands[j][0] by {
                if available[k] == commands[j][0] {
                    assert(available.contains(commands[j][0]));
                    assert(runnable(commands[j], available));
                }
            }
        }
    }
}

proof fn lemma_first_runnable_prefix(
    commands: Seq<Seq<Seq<char>>>,
    available: Seq<Seq<char>>,
    k: int,
)
    requires
        0 <= k <= commands.len(),
        first_runnable(commands.take(k), available) is Some,
    ensures
        first_runnable(commands, available) == first_runnable(commands.take(k), available),
    decreases commands.len(),
{
    if k < commands.len() {
        assert(commands.drop_last().take(k) =~= commands.take(k));
        lemma_first_runnable_prefix(commands.drop_last(), available, k);
    } else {
        assert(commands.take(k) =~= commands);
    }
}

/// The answer when no command of the action named `label` can be run.
pub open spec fn no_application_message(label: Seq<char>) -> Seq<char> {
    "No se encontró una aplicación compatible para "@ + label
}

/// Which command line carries out `action`: the first whose program is among
/// `available` (the programs found on the search path).
pub fn choose_command(action: &QuickAction, available: &Vec<String>) -> (r: Result<
    Vec<String>,
    String,
>)
    requires
        empty_commands_unreached(action@.commands, string_views(available@)),
    ensures
        r is Ok <==> first_runnable(action@.commands, string_views(available@)) is Some,
        r matches Ok(cmd) ==> string_views(cmd@) == action@.commands[first_runnable(
            action@.commands,
            string_views(available@),
        )->0],
        r matches Err(msg) ==> msg@ == no_application_message(action@.label),
{
    let ghost cs = action@.commands;
    let ghost av = string_views(available@);
    let mut i: usize = 0;
    while i < action.commands.len()
        invariant
            i <= action.commands.len(),
            cs == action@.commands,
            av == string_views(available@),
            empty_commands_unreached(cs, av),
            first_runnable(cs.take(i as int), av) is None,
        decreases action.commands.len() - i,
    {
        assert(cs.take(i + 1).drop_last() =~= cs.take(i as int));
        let command = &action.commands[i];
        assert(string_views(command@) == cs[i as int]);
        if command.len() == 0 {
            assert(cs[i as int].len() == 0);
            assert(false);
        }
        if contains_string(available, &command[0]) {
            proof {
                lemma_first_runnable_prefix(cs, av, i + 1);
            }
            return Ok(command.clone());
        }
        i = i + 1;
    }
    assert(cs.take(action.commands.len() as int) =~= cs);
    let mut msg = chars_of("No se encontró una aplicación compatible para ");
    let mut label = chars_of(action.label.as_str());
    msg.append(&mut label);
    Err(string_of(&msg))
}

/// The programs that can open the documentation folder, in order of
/// preference.
pub open spec fn documentation_openers() -> Seq<Seq<char>> {
    seq!["dolphin"@, "kioclient5"@, "xdg-open"@]
}

/// The answer when no documentation path exists.
pub open spec fn no_documentation_message() -> Seq<char> {
    "No se encontró documentación local de GuepardOS."@
}

/// The answer when no program can open the documentation.
pub open spec fn no_file_manager_message() -> Seq<char> {
    "No se encontró un gestor de archivos compatible."@
}

/// How the local documentation is opened, as plain values: the first of
/// `paths` that is among `existing`, with the first opener among `available`.
pub open spec fn documentation_choice(
    paths: Seq<Seq<char>>,
    existing: Seq<Seq<char>>,
    available: Seq<Seq<char>>,
) -> Result<(Seq<char>, Seq<char>), Seq<char>> {
    match first_in(paths, existing) {
        None => Err(no_documentation_message()),
        Some(p) => match first_in(documentation_openers(), available) {
            None => Err(no_file_manager_message()),
            Some(o) => Ok((documentation_openers()[o], paths[p])),
        },
    }
}

/// A documentation answer as plain values.
pub open spec fn documentation_answer(r: Result<(String, String), String>) -> Result<
    (Seq<char>, Seq<char>),
    Seq<char>,
> {
    match r {
        Ok((opener, path)) => Ok((opener@, path@)),
        Err(m) => Err(m@),
    }
}

/// What the documentation button does, for all inputs: the folder opened is
/// the first of `paths` that exists; the opener is dolphin when available,
/// else kioclient5, else xdg-open; it fails for want of an opener only when
/// none of the three is available, and for want of a folder only when no
/// path exists.
pub proof fn lemma_documentation_choice(
    paths: Seq<Seq<char>>,
    existing: Seq<Seq<char>>,
    available: Seq<Seq<char>>,
)
    ensures
        ({
            let r = documentation_choice(paths, existing, available);
            let some_path = exists|i: int| 0 <= i < paths.len() && existing.contains(#[trigger] paths[i]);
            let some_opener = available.contains("dolphin"@) || available.contains("kioclient5"@)
                || available.contains("xdg-open"@);
            &&& some_path && some_opener ==> r is Ok
            &&& some_path && r is Err ==> !some_opener
            &&& !some_path ==> r == Err::<(Seq<char>, Seq<char>), Seq<char>>(no_documentation_message())
            &&& r matches Ok((opener, path)) ==> {
                &&& opener == (if available.contains("dolphin"@) {
                    "dolphin"@
                } else if available.contains("kioclient5"@) {
                    "kioclient5"@
                } else {
                    "xdg-open"@
                })
                &&& available.contains(opener)
                &&& exists|i: int|
                    0 <= i < paths.len() && paths[i] == path && existing.contains(path) && forall|j: int|
                        0 <= j < i ==> !existing.contains(#[trigger] paths[j])
            }
        }),
{
    let ops = documentation_openers();
    lemma_first_in_is_first(paths, existing);
    lemma_first_in_is_first(ops, available);
    let some_path = exists|i: int| 0 <= i < paths.len() && existing.contains(#[trigger] paths[i]);
    if some_path {
        let i = choose|i: int| 0 <= i < paths.len() && existing.contains(#[trigger] paths[i]);
        assert(first_in(paths, existing) is Some);
    }
    if available.contains("dolphin"@) {
        assert(ops[0] == "dolphin"@);
    }
    if available.contains("kioclient5"@) {
        assert(ops[1] == "kioclient5"@);
    }
    if available.contains("xdg-open"@) {
        assert(ops[2] == "xdg-open"@);
    }
    match first_in(ops, available) {
        Some(o) => {
            if o > 0 {
                assert(!available.contains(ops[0]));
            }
            if o > 1 {
                assert(!available.contains(ops[1]));
            }
        },
        None => {},
    }
}

/// How to open the local documentation: the first of `paths` that is among
/// `existing` (the paths present on disk), opened with the first opener among
/// `available` (the programs found on the search path); answered as
/// `(opener, path)`.
pub fn choose_documentation(
    paths: &Vec<String>,
    existing: &Vec<String>,
    available: &Vec<String>,
) -> (r: Result<(String, String), String>)
    ensures
        ({
            let p = first_in(string_views(paths@), string_views(existing@));
            let o = first_in(documentation_openers(), string_views(available@));
            &&& p is None ==> (r matches Err(m) && m@ == no_documentation_message())
            &&& (p is Some && o is None) ==> (r matches Err(m) && m@ == no_file_manager_message())
            &&& (p is Some && o is Some) ==> (r matches Ok((opener, path)) && opener@
                == documentation_openers()[o->0] && path@ == string_views(paths@)[p->0])
        }),
        documentation_answer(r) == documentation_choice(
            string_views(paths@),
            string_views(existing@),
            string_views(available@),
        ),
{
    let found = find_first_in(paths, existing);
    match found {
        None => Err("No se encontró documentación local de GuepardOS.".to_string()),
        Some(i) => {
            let openers = vec![
                "dolphin".to_string(),
                "kioclient5".to_string(),
                "xdg-open".to_string(),
            ];
            assert(string_views(openers@) =~= documentation_openers());
            match find_first_in(&openers, available) {
                None => Err("No se encontró un gestor de archivos compatible.".to_string()),
                Some(k) => Ok((openers[k].clone(), paths[i].clone())),
            }
        },
    }
}

} // verus!
