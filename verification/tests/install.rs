use guepardos_welcome::install::{
    install_command, install_start, install_step, InstallAction, InstallCheck, InstallEvent,
};

fn finish(a: InstallAction) -> (Result<String, String>, bool) {
    match a {
        InstallAction::Finish { result, release_guard } => (result, release_guard),
        _ => panic!("expected the run to end"),
    }
}

fn check(a: InstallAction) -> InstallCheck {
    match a {
        InstallAction::Check(c) => c,
        _ => panic!("expected a check"),
    }
}

#[test]
fn empty_list_needs_no_installation() {
    let (r, release) = finish(install_start(&vec![]));
    assert_eq!(r, Ok("Todo lo seleccionado ya está instalado.".to_string()));
    assert!(!release);
}

#[test]
fn checks_come_in_order_then_run() {
    let pk = vec!["git".to_string()];
    assert_eq!(check(install_start(&pk)), InstallCheck::LockFile);
    assert_eq!(check(install_step(InstallEvent::LockFile { present: false })), InstallCheck::Pacman);
    assert_eq!(check(install_step(InstallEvent::Pacman { found: true })), InstallCheck::Pkexec);
    assert_eq!(check(install_step(InstallEvent::Pkexec { found: true })), InstallCheck::Internet);
    assert_eq!(check(install_step(InstallEvent::Internet { reachable: true })), InstallCheck::Guard);
    assert!(matches!(install_step(InstallEvent::Guard { already_running: false }), InstallAction::Run));
}

#[test]
fn each_failed_check_has_its_message() {
    assert_eq!(
        finish(install_step(InstallEvent::LockFile { present: true })),
        (Err("Pacman está bloqueado por otra operación. Espera a que termine y vuelve a intentarlo.".to_string()), false)
    );
    assert_eq!(
        finish(install_step(InstallEvent::Pacman { found: false })),
        (Err("Pacman no está disponible en este sistema.".to_string()), false)
    );
    assert_eq!(
        finish(install_step(InstallEvent::Pkexec { found: false })),
        (Err("pkexec no está disponible para solicitar permisos de administrador.".to_string()), false)
    );
    assert_eq!(
        finish(install_step(InstallEvent::Internet { reachable: false })),
        (Err("No hay conexión a Internet. Conéctate antes de instalar paquetes.".to_string()), false)
    );
    assert_eq!(
        finish(install_step(InstallEvent::Guard { already_running: true })),
        (Err("Ya hay una instalación en curso.".to_string()), false)
    );
}

#[test]
fn run_end_releases_the_guard() {
    assert_eq!(
        finish(install_step(InstallEvent::Ran { success: true, output: "ok".to_string() })),
        (Ok("ok".to_string()), true)
    );
    assert_eq!(
        finish(install_step(InstallEvent::Ran { success: false, output: "fail".to_string() })),
        (Err("fail".to_string()), true)
    );
    assert_eq!(
        finish(install_step(InstallEvent::SpawnFailed { error: "no such file".to_string() })),
        (Err("no such file".to_string()), true)
    );
}

#[test]
fn command_line_lists_the_packages() {
    let pk = vec!["steam".to_string(), "lutris".to_string()];
    assert_eq!(install_command(&pk), vec!["pkexec", "pacman", "-S", "--needed", "steam", "lutris"]);
}
