//! The decisions of an installation run: which check comes next, when the
//! package manager is started, and what the run answers.
//!
//! The caller performs each check and the run itself, and reports what it
//! found as an [`InstallEvent`]; [`install_step`] says what to do next.

use vstd::prelude::*;
use crate::text::string_views;

verus! {

broadcast use vstd::string::group_string_axioms;

/// A check made before an installation is started.
#[derive(Clone, Copy, Debug, PartialEq, Eq, Structural)]
pub enum InstallCheck {
    /// Is the package database lock file present?
    LockFile,
    /// Is `pacman` on the search path?
    Pacman,
    /// Is `pkexec` on the search path?
    Pkexec,
    /// Is the Internet reachable?
    Internet,
    /// Take the guard that allows one installation at a time.
    Guard,
}

/// What the caller does next.
pub enum InstallAction {
    /// Make this check and report its outcome.
    Check(InstallCheck),
    /// Run the command of `install_command` and report how it ended.
    Run,
    /// Stop with `result`, after releasing the guard when `release_guard`.
    Finish { result: Result<String, String>, release_guard: bool },
}

/// The outcome of a check or of the run.
pub enum InstallEvent {
    LockFile { present: bool },
    Pacman { found: bool },
    Pkexec { found: bool },
    Internet { reachable: bool },
    /// The guard was taken; `already_running` tells that another installation
    /// held it already.
    Guard { already_running: bool },
    /// The command ran to its end, with this exit success and combined output.
    Ran { success: bool, output: String },
    /// The command could not be started.
    SpawnFailed { error: String },
}

pub open spec fn nothing_to_install_message() -> Seq<char> {
    "Todo lo seleccionado ya está instalado."@
}

pub open spec fn locked_message() -> Seq<char> {
    "Pacman está bloqueado por otra operación. Espera a que termine y vuelve a intentarlo."@
}

pub open spec fn no_pacman_message() -> Seq<char> {
    "Pacman no está disponible en este sistema."@
}

pub open spec fn no_pkexec_message() -> Seq<char> {
    "pkexec no está disponible para solicitar permisos de administrador."@
}

pub open spec fn offline_message() -> Seq<char> {
    "No hay conexión a Internet. Conéctate antes de instalar paquetes."@
}

pub open spec fn busy_message() -> Seq<char> {
    "Ya hay una instalación en curso."@
}

/// `a` finishes with `result` (as character sequences), releasing the guard
/// exactly when `release`.
pub open spec fn finishes(a: InstallAction, result: Result<Seq<char>, Seq<char>>, release: bool) -> bool {
    match a {
        InstallAction::Finish { result: r, release_guard } => release_guard == release && match (
            r,
            result,
        ) {
            (Ok(x), Ok(y)) => x@ == y,
            (Err(x), Err(y)) => x@ == y,
            _ => false,
        },
        _ => false,
    }
}

/// What follows each outcome: the checks come in the order lock file, pacman,
/// pkexec, Internet, guard; the first that fails ends the run with its
/// message; the command runs once the guard is taken; its end releases the
/// guard and answers its output, as success or as error.
pub open spec fn step_answers(event: InstallEvent, a: InstallAction) -> bool {
    match event {
        InstallEvent::LockFile { present } => if present {
            finishes(a, Err(locked_message()), false)
        } else {
            a == InstallAction::Check(InstallCheck::Pacman)
        },
        InstallEvent::Pacman { found } => if found {
            a == InstallAction::Check(InstallCheck::Pkexec)
        } else {
            finishes(a, Err(no_pacman_message()), false)
        },
        InstallEvent::Pkexec { found } => if found {
            a == InstallAction::Check(InstallCheck::Internet)
        } else {
            finishes(a, Err(no_pkexec_message()), false)
        },
        InstallEvent::Internet { reachable } => if reachable {
            a == InstallAction::Check(InstallCheck::Guard)
        } else {
            finishes(a, Err(offline_message()), false)
        },
        InstallEvent::Guard { already_running } => if already_running {
            finishes(a, Err(busy_message()), false)
        } else {
            a == InstallAction::Run
        },
        InstallEvent::Ran { success, output } => if success {
            finishes(a, Ok(output@), true)
        } else {
            finishes(a, Err(output@), true)
        },
        InstallEvent::SpawnFailed { error } => finishes(a, Err(error@), true),
    }
}

/// The first action of an installation of `packages`: nothing to do when the
/// list is empty, else the first check.
pub fn install_start(packages: &Vec<String>) -> (a: InstallAction)
    ensures
        packages.len() == 0 ==> finishes(a, Ok(nothing_to_install_message()), false),
        packages.len() > 0 ==> a == InstallAction::Check(InstallCheck::LockFile),
{
    if packages.len() == 0 {
        InstallAction::Finish {
            result: Ok("Todo lo seleccionado ya está instalado.".to_string()),
            release_guard: false,
        }
    } else {
        InstallAction::Check(InstallCheck::LockFile)
    }
}

/// The action that follows `event`.
pub fn install_step(event: InstallEvent) -> (a: InstallAction)
    ensures
        step_answers(event, a),
{
    match event {
        InstallEvent::LockFile { present } => if present {
            InstallAction::Finish {
                result: Err(
                    "Pacman está bloqueado por otra operación. Espera a que termine y vuelve a intentarlo.".to_string(),
                ),
                release_guard: false,
            }
        } else {
            InstallAction::Check(InstallCheck::Pacman)
        },
        InstallEvent::Pacman { found } => if found {
            InstallAction::Check(InstallCheck::Pkexec)
        } else {
            InstallAction::Finish {
                result: Err("Pacman no está disponible en este sistema.".to_string()),
                release_guard: false,
            }
        },
        InstallEvent::Pkexec { found } => if found {
            InstallAction::Check(InstallCheck::Internet)
        } else {
            InstallAction::Finish {
                result: Err(
                    "pkexec no está disponible para solicitar permisos de administrador.".to_string(),
                ),
                release_guard: false,
            }
        },
        InstallEvent::Internet { reachable } => if reachable {
            InstallAction::Check(InstallCheck::Guard)
        } else {
            InstallAction::Finish {
                result: Err(
                    "No hay conexión a Internet. Conéctate antes de instalar paquetes.".to_string(),
                ),
                release_guard: false,
            }
        },
        InstallEvent::Guard { already_running } => if already_running {
            InstallAction::Finish {
                result: Err("Ya hay una instalación en curso.".to_string()),
                release_guard: false,
            }
        } else {
            InstallAction::Run
        },
        InstallEvent::Ran { success, output } => if success {
            InstallAction::Finish { result: Ok(output), release_guard: true }
        } else {
            InstallAction::Finish { result: Err(output), release_guard: true }
        },
        InstallEvent::SpawnFailed { error } => InstallAction::Finish {
            result: Err(error),
            release_guard: true,
        },
    }
}

/// The command line that installs `packages`:
/// `pkexec pacman -S --needed <packages>`.
pub fn install_command(packages: &Vec<String>) -> (r: Vec<String>)
    ensures
        string_views(r@) == seq!["pkexec"@, "pacman"@, "-S"@, "--needed"@] + string_views(
            packages@,
        ),
{
    let mut r: Vec<String> = Vec::new();
    r.push("pkexec".to_string());
    r.push("pacman".to_string());
    r.push("-S".to_string());
    r.push("--needed".to_string());
    let ghost head = seq!["pkexec"@, "pacman"@, "-S"@, "--needed"@];
    assert(string_views(r@) =~= head);
    let mut i: usize = 0;
    while i < packages.len()
        invariant
            i <= packages.len(),
            string_views(r@) == head + string_views(packages@).take(i as int),
        decreases packages.len() - i,
    {
        let ghost before = string_views(r@);
        let p = packages[i].clone();
        assert(p@ == packages@[i as int]@);
        r.push(p);
        assert(string_views(r@) =~= before.push(packages@[i as int]@));
        assert(string_views(packages@).take(i + 1) =~= string_views(packages@).take(i as int).push(
            packages@[i as int]@,
        ));
        i = i + 1;
        assert(string_views(r@) =~= head + string_views(packages@).take(i as int));
    }
    assert(string_views(packages@).take(packages.len() as int) =~= string_views(packages@));
    r
}

/// The installation command is started only once every check has passed:
/// the one outcome after which the run is asked for is a guard taken while no
/// other installation held it.
pub proof fn lemma_run_only_after_guard(event: InstallEvent)
    requires
        step_answers(event, InstallAction::Run),
    ensures
        event == (InstallEvent::Guard { already_running: false }),
{
}

/// The guard is released exactly after the installation command was tried:
/// an outcome that releases it is the end of a run or its failure to start.
pub proof fn lemma_release_only_after_run(event: InstallEvent, a: InstallAction)
    requires
        step_answers(event, a),
        a matches InstallAction::Finish { release_guard, .. } && release_guard,
    ensures
        event is Ran || event is SpawnFailed,
{
}

} // verus!
