use guepardos_welcome::quick_actions::{choose_command, choose_documentation, quick_actions};

fn names(v: &[&str]) -> Vec<String> {
    v.iter().map(|s| s.to_string()).collect()
}

#[test]
fn six_quick_actions() {
    let a = quick_actions();
    assert_eq!(a.len(), 6);
    assert_eq!(a[1].commands[0], vec!["plasma-discover", "--mode", "Update"]);
    assert_eq!(a[5].label, "Configurar red");
}

#[test]
fn first_available_command_is_chosen() {
    let a = &quick_actions()[2];
    let chosen = choose_command(a, &names(&["discover", "octopi"])).unwrap();
    assert_eq!(chosen, vec!["octopi"]);
}

#[test]
fn command_arguments_are_kept() {
    let a = &quick_actions()[3];
    let chosen = choose_command(a, &names(&["systemsettings"])).unwrap();
    assert_eq!(chosen, vec!["systemsettings", "kcm_about-distro"]);
}

#[test]
fn no_available_program_is_reported() {
    let a = &quick_actions()[0];
    assert_eq!(
        choose_command(a, &names(&["kate"])),
        Err("No se encontró una aplicación compatible para Abrir Ajustes".to_string())
    );
}

#[test]
fn documentation_uses_first_existing_path_and_first_opener() {
    let paths = names(&["/usr/share/doc/a", "/usr/share/doc/b", "/usr/share/doc/c"]);
    let r = choose_documentation(&paths, &names(&["/usr/share/doc/c", "/usr/share/doc/b"]), &names(&["xdg-open", "kioclient5"]));
    assert_eq!(r, Ok(("kioclient5".to_string(), "/usr/share/doc/b".to_string())));
}

#[test]
fn documentation_missing_is_reported_first() {
    let paths = names(&["/a"]);
    assert_eq!(
        choose_documentation(&paths, &names(&[]), &names(&[])),
        Err("No se encontró documentación local de GuepardOS.".to_string())
    );
    assert_eq!(
        choose_documentation(&paths, &names(&["/a"]), &names(&["nautilus"])),
        Err("No se encontró un gestor de archivos compatible.".to_string())
    );
}
