//! The texts and choices of the welcome window that follow from the
//! library's data: labels, messages and what a control starts as.

use vstd::prelude::*;
use crate::first_steps::FirstStepsState;
use crate::package_installer::{PackageItem, PackageSource};
use crate::system_status::SystemStatus;
use crate::text::{chars_of, contains_string, string_of, string_views};

verus! {

broadcast use vstd::string::group_string_axioms;

/// `parts` joined with `sep` between consecutive parts, as `join` does.
pub open spec fn joined(parts: Seq<Seq<char>>, sep: Seq<char>) -> Seq<char>
    decreases parts.len(),
{
    if parts.len() == 0 {
        seq![]
    } else if parts.len() == 1 {
        parts[0]
    } else {
        joined(parts.drop_last(), sep) + sep + parts.last()
    }
}

/// Appends the characters of `s` to `out`.
fn push_str(out: &mut Vec<char>, s: &str)
    ensures
        final(out)@ == old(out)@ + s@,
{
    let mut c = chars_of(s);
    out.append(&mut c);
}

/// `parts` joined with `sep`.
pub fn join(parts: &Vec<String>, sep: &str) -> (r: String)
    ensures
        r@ == joined(string_views(parts@), sep@),
{
    let ghost pv = string_views(parts@);
    let mut out: Vec<char> = Vec::new();
    let mut i: usize = 0;
    while i < parts.len()
        invariant
            i <= parts.len(),
            pv == string_views(parts@),
            out@ == joined(pv.take(i as int), sep@),
        decreases parts.len() - i,
    {
        assert(pv.take(i + 1).drop_last() =~= pv.take(i as int));
        if i > 0 {
            push_str(&mut out, sep);
        }
        push_str(&mut out, parts[i].as_str());
        i = i + 1;
        assert(out@ =~= joined(pv.take(i as int), sep@));
    }
    assert(pv.take(parts.len() as int) =~= pv);
    string_of(&out)
}

/// The text of a status label: `"{name}: {value}"`.
pub fn status_text(name: &str, value: &str) -> (r: String)
    ensures
        r@ == name@ + ": "@ + value@,
{
    let mut out = chars_of(name);
    push_str(&mut out, ": ");
    push_str(&mut out, value);
    string_of(&out)
}

/// The grid cell `(column, row)` of the `index`-th button of a three-column
/// grid.
pub fn grid_cell(index: usize) -> (r: (usize, usize))
    ensures
        r.0 == index % 3,
        r.1 == index / 3,
        r.0 < 3,
{
    (index % 3, index / 3)
}

/// The status labels of the overview card: a key and the name shown.
pub open spec fn status_pill_list() -> Seq<(Seq<char>, Seq<char>)> {
    seq![
        ("internet"@, "Internet"@),
        ("updates"@, "Actualizaciones"@),
        ("gpu"@, "GPU"@),
        ("session"@, "Sesión"@),
        ("flatpak"@, "Flatpak"@),
    ]
}

/// The status labels of the overview card, as `(key, name)` pairs.
pub fn status_pills() -> (r: Vec<(&'static str, &'static str)>)
    ensures
        r@.map_values(|t: (&'static str, &'static str)| (t.0@, t.1@)) == status_pill_list(),
{
    let r = vec![
        ("internet", "Internet"),
        ("updates", "Actualizaciones"),
        ("gpu", "GPU"),
        ("session", "Sesión"),
        ("flatpak", "Flatpak"),
    ];
    assert(r@.map_values(|t: (&'static str, &'static str)| (t.0@, t.1@)) =~= status_pill_list());
    r
}

/// The value that a status label shows for `key`.
pub open spec fn status_value_of(status: SystemStatus, key: Seq<char>) -> Seq<char> {
    if key == "internet"@ {
        status.internet@
    } else if key == "updates"@ {
        status.updates@
    } else if key == "gpu"@ {
        status.gpu@
    } else if key == "session"@ {
        status.session@
    } else if key == "flatpak"@ {
        status.flatpak@
    } else {
        seq![]
    }
}

fn str_equal(a: &str, b: &str) -> (r: bool)
    ensures
        r == (a@ == b@),
{
    crate::text::chars_equal(&chars_of(a), &chars_of(b))
}

/// The value that the status label `key` shows once the overview is in.
pub fn status_value(status: &SystemStatus, key: &str) -> (r: String)
    ensures
        r@ == status_value_of(*status, key@),
{
    if str_equal(key, "internet") {
        status.internet.clone()
    } else if str_equal(key, "updates") {
        status.updates.clone()
    } else if str_equal(key, "gpu") {
        status.gpu.clone()
    } else if str_equal(key, "session") {
        status.session.clone()
    } else if str_equal(key, "flatpak") {
        status.flatpak.clone()
    } else {
        String::new()
    }
}

/// The label of an item's row in a profile dialog: its name, marked when it
/// is installed or when its source cannot be used yet.
pub open spec fn item_row_text(label: Seq<char>, source: PackageSource, installed: bool) -> Seq<
    char,
> {
    if installed {
        label + " · instalado"@
    } else if source == PackageSource::Unavailable {
        label + " · fuente no disponible todavía"@
    } else {
        label
    }
}

/// The label of `item`'s row; `installed` tells whether it is installed.
pub fn item_row_label(item: &PackageItem, installed: bool) -> (r: String)
    ensures
        r@ == item_row_text(item.label@, item.source, installed),
{
    let mut out = chars_of(item.label.as_str());
    if installed {
        push_str(&mut out, " · instalado");
    } else if item.source == PackageSource::Unavailable {
        push_str(&mut out, " · fuente no disponible todavía");
    }
    assert(out@ =~= item_row_text(item.label@, item.source, installed));
    string_of(&out)
}

/// Whether `item`'s box can be (and starts) ticked: it is not installed and
/// comes from Pacman.
pub fn item_selectable(item: &PackageItem, installed: bool) -> (r: bool)
    ensures
        r == (!installed && item.source == PackageSource::Pacman),
{
    !installed && item.source == PackageSource::Pacman
}

/// The line under an item's row that lists its packages.
pub fn packages_line(item: &PackageItem) -> (r: String)
    ensures
        r@ == "Paquetes: "@ + joined(string_views(item.packages@), ", "@),
{
    let mut out = chars_of("Paquetes: ");
    let list = join(&item.packages, ", ");
    push_str(&mut out, list.as_str());
    string_of(&out)
}

/// The question asked before installing `packages`.
pub open spec fn confirm_text(packages: Seq<Seq<char>>) -> Seq<char> {
    if packages.len() == 0 {
        "Todo lo seleccionado ya está instalado."@
    } else {
        "Se instalarán estos paquetes:\n\n"@ + joined(packages, ", "@)
    }
}

/// The question asked before installing `packages`.
pub fn confirm_message(packages: &Vec<String>) -> (r: String)
    ensures
        r@ == confirm_text(string_views(packages@)),
{
    if packages.len() == 0 {
        "Todo lo seleccionado ya está instalado.".to_string()
    } else {
        let mut out = chars_of("Se instalarán estos paquetes:\n\n");
        let list = join(packages, ", ");
        push_str(&mut out, list.as_str());
        string_of(&out)
    }
}

/// Whether to go on with an installation once the question was answered:
/// only when it was accepted and there is something to install.
pub fn should_install(accepted: bool, packages: &Vec<String>) -> (r: bool)
    ensures
        r == (accepted && packages.len() > 0),
{
    accepted && packages.len() > 0
}

/// How the end of an installation is reported: whether as an error, and the
/// message.
pub open spec fn install_report(result: Result<Seq<char>, Seq<char>>) -> (bool, Seq<char>) {
    match result {
        Ok(_) => (false, "Instalación finalizada."@),
        Err(e) => (true, "No se pudo completar la instalación:\n\n"@ + e),
    }
}

/// How the end of an installation is reported: `(is_error, message)`.
pub fn install_result_message(result: &Result<String, String>) -> (r: (bool, String))
    ensures
        (r.0, r.1@) == install_report(match result {
            Ok(o) => Ok(o@),
            Err(e) => Err(e@),
        }),
{
    match result {
        Ok(_) => (false, "Instalación finalizada.".to_string()),
        Err(e) => {
            let mut out = chars_of("No se pudo completar la instalación:\n\n");
            push_str(&mut out, e.as_str());
            (true, string_of(&out))
        },
    }
}

/// The release line of the welcome header, with the system version when it
/// is known.
pub open spec fn release_text(version: Option<Seq<char>>) -> Seq<char> {
    match version {
        Some(v) => "Basado en Arch Linux · Rolling Release · "@ + v,
        None => "Basado en Arch Linux · Rolling Release"@,
    }
}

/// The release line of the welcome header.
pub fn release_line(version: Option<&str>) -> (r: String)
    ensures
        r@ == release_text(match version {
            Some(v) => Some(v@),
            None => None,
        }),
{
    match version {
        Some(v) => {
            let mut out = chars_of("Basado en Arch Linux · Rolling Release · ");
            push_str(&mut out, v);
            string_of(&out)
        },
        None => "Basado en Arch Linux · Rolling Release".to_string(),
    }
}

/// Whether the checklist box of task `id` starts ticked.
pub fn is_completed(state: &FirstStepsState, id: &str) -> (r: bool)
    ensures
        r == state@.contains(id@),
{
    contains_string(&state.completed, &id.to_string())
}

/// What to do to the autostart entry.
#[derive(Clone, Copy, Debug, PartialEq, Eq, Structural)]
pub enum AutostartChange {
    /// Link the desktop entry into the autostart folder.
    Link,
    /// Remove the entry from the autostart folder.
    Remove,
    /// Leave it as it is.
    Keep,
}

/// What to do to the autostart entry when the switch is set to `autostart`,
/// given whether a regular file stands there.
pub fn autostart_change(autostart: bool, entry_is_regular_file: bool) -> (r: AutostartChange)
    ensures
        r == (if autostart && !entry_is_regular_file {
            AutostartChange::Link
        } else if !autostart && entry_is_regular_file {
            AutostartChange::Remove
        } else {
            AutostartChange::Keep
        }),
{
    if autostart && !entry_is_regular_file {
        AutostartChange::Link
    } else if !autostart && entry_is_regular_file {
        AutostartChange::Remove
    } else {
        AutostartChange::Keep
    }
}

} // verus!
