//! The system overview: what is read from the machine, and how each reading
//! is reported to the user.
//!
//! The caller gathers the raw readings (command outputs, file contents, which
//! programs exist) into a [`StatusProbe`]; everything that is concluded from
//! them is here.

use vstd::prelude::*;
use crate::text::{
    after_nth, after_nth_chars, chars_of, contains_chars, decimal, decimal_chars, has_substring,
    lines, split_lines, split_words, string_of, trim, trim_chars, views_of, words, string_views,
    contains_string, eq_ignore_ascii_case, eq_ignore_ascii_case_chars, ends_with, ends_with_chars,
    starts_with, starts_with_chars, sub_vec, trim_char, trim_char_chars, is_white_space,
    lemma_trim_keeps_inner_text,
};

verus! {

broadcast use vstd::string::group_string_axioms;

/// The overview shown on the welcome screen.
#[derive(Clone, Debug)]
pub struct SystemStatus {
    pub internet: String,
    pub updates: String,
    pub gpu: String,
    pub session: String,
    pub flatpak: String,
    pub firewall: String,
    pub snapshots: String,
    pub bluetooth: String,
    pub disk: String,
    pub reboot_required: bool,
}

/// The characters of an optional string slice.
pub open spec fn opt_str(o: Option<&str>) -> Option<Seq<char>> {
    match o {
        Some(s) => Some(s@),
        None => None,
    }
}

/// The characters of an optional string.
pub open spec fn opt_string(o: Option<String>) -> Option<Seq<char>> {
    match o {
        Some(s) => Some(s@),
        None => None,
    }
}

/// How many of `ls` hold something besides white space.
pub open spec fn count_nonblank(ls: Seq<Seq<char>>) -> nat
    decreases ls.len(),
{
    if ls.len() == 0 {
        0
    } else {
        count_nonblank(ls.drop_last()) + if trim(ls.last()).len() > 0 {
            1nat
        } else {
            0nat
        }
    }
}

/// A line holds something besides white space.
pub open spec fn is_nonblank(l: Seq<char>) -> bool {
    trim(l).len() > 0
}

proof fn lemma_count_nonblank_filter(ls: Seq<Seq<char>>)
    ensures
        count_nonblank(ls) == ls.filter(|l: Seq<char>| is_nonblank(l)).len(),
    decreases ls.len(),
{
    reveal(Seq::filter);
    if ls.len() > 0 {
        lemma_count_nonblank_filter(ls.drop_last());
    }
}

/// The pending-updates reading: `output` is what `checkupdates` printed, or
/// `None` when it is not installed or could not be run.
pub open spec fn updates_text(output: Option<Seq<char>>) -> Seq<char> {
    match output {
        None => "No disponible"@,
        Some(o) => {
            let n = count_nonblank(lines(o));
            if n == 0 {
                "Sistema al día"@
            } else {
                decimal(n) + " disponibles"@
            }
        },
    }
}

/// Every line of `checkupdates` output that is not blank counts as one
/// pending update, however many lines there are: the number shown is the
/// number of non-blank lines, and no updates are reported only when there is
/// no such line.
pub proof fn lemma_updates_count_every_nonblank_line(o: Seq<char>)
    ensures
        ({
            let k = lines(o).filter(|l: Seq<char>| is_nonblank(l)).len();
            updates_text(Some(o)) == if k == 0 {
                "Sistema al día"@
            } else {
                decimal(k) + " disponibles"@
            }
        }),
        updates_text(None) == "No disponible"@,
{
    lemma_count_nonblank_filter(lines(o));
}

/// How many updates are pending, as shown to the user.
pub fn pending_updates(output: Option<&str>) -> (r: String)
    ensures
        r@ == updates_text(opt_str(output)),
{
    match output {
        None => "No disponible".to_string(),
        Some(o) => {
            let ls = split_lines(&chars_of(o));
            let ghost lv = views_of(ls@);
            let mut n: usize = 0;
            let mut i: usize = 0;
            while i < ls.len()
                invariant
                    i <= ls.len(),
                    lv == views_of(ls@),
                    n == count_nonblank(lv.take(i as int)),
                    n <= i,
                decreases ls.len() - i,
            {
                assert(lv.take(i + 1).drop_last() =~= lv.take(i as int));
                let t = trim_chars(&ls[i]);
                if t.len() > 0 {
                    n = n + 1;
                }
                i = i + 1;
            }
            assert(lv.take(ls.len() as int) =~= lv);
            if n == 0 {
                "Sistema al día".to_string()
            } else {
                let mut s = decimal_chars(n);
                let mut tail = chars_of(" disponibles");
                s.append(&mut tail);
                string_of(&s)
            }
        },
    }
}

/// Unicode lower-case mapping of a string, as `str::to_lowercase` computes it.
pub uninterp spec fn lowercase(s: Seq<char>) -> Seq<char>;

/// `str::to_lowercase`. Its result is given the name `lowercase`; nothing
/// further is claimed of the Unicode case tables it follows.
#[verifier::external_body]
fn to_lowercase(s: &str) -> (r: String)
    ensures
        r@ == lowercase(s@),
{
    s.to_lowercase()
}

/// A lower-cased `lspci` line describes a graphics device.
pub open spec fn describes_gpu(lowered: Seq<char>) -> bool {
    ||| has_substring(lowered, "vga compatible controller"@)
    ||| has_substring(lowered, "3d controller"@)
    ||| has_substring(lowered, "display controller"@)
}

/// Whether a lower-cased `lspci` line describes a graphics device.
pub fn is_gpu_line(lowered: &Vec<char>) -> (r: bool)
    ensures
        r == describes_gpu(lowered@),
{
    contains_chars(lowered, &chars_of("vga compatible controller")) || contains_chars(
        lowered,
        &chars_of("3d controller"),
    ) || contains_chars(lowered, &chars_of("display controller"))
}

/// The position of the first line that describes a graphics device.
pub open spec fn first_gpu_line(ls: Seq<Seq<char>>) -> Option<int>
    decreases ls.len(),
{
    if ls.len() == 0 {
        None
    } else {
        match first_gpu_line(ls.drop_last()) {
            Some(i) => Some(i),
            None => if describes_gpu(lowercase(ls.last())) {
                Some(ls.len() - 1)
            } else {
                None
            },
        }
    }
}

proof fn lemma_first_gpu_line_prefix(ls: Seq<Seq<char>>, k: int)
    requires
        0 <= k <= ls.len(),
        first_gpu_line(ls.take(k)) is Some,
    ensures
        first_gpu_line(ls) == first_gpu_line(ls.take(k)),
    decreases ls.len(),
{
    if k < ls.len() {
        assert(ls.drop_last().take(k) =~= ls.take(k));
        lemma_first_gpu_line_prefix(ls.drop_last(), k);
    } else {
        assert(ls.take(k) =~= ls);
    }
}

proof fn lemma_first_gpu_line_is_first(ls: Seq<Seq<char>>)
    ensures
        first_gpu_line(ls) matches Some(i) ==> 0 <= i < ls.len() && describes_gpu(lowercase(ls[i]))
            && forall|j: int| 0 <= j < i ==> !describes_gpu(lowercase(#[trigger] ls[j])),
        first_gpu_line(ls) is None ==> forall|j: int|
            0 <= j < ls.len() ==> !describes_gpu(lowercase(#[trigger] ls[j])),
    decreases ls.len(),
{
    if ls.len() > 0 {
        let init = ls.drop_last();
        lemma_first_gpu_line_is_first(init);
        assert forall|j: int| 0 <= j < init.len() implies #[trigger] ls[j] == init[j] by {}
    }
}

/// The device name on an `lspci` line: what follows its second `:`, or the
/// whole line when it has fewer, without surrounding white space.
pub open spec fn device_name(line: Seq<char>) -> Seq<char> {
    match after_nth(line, ':', 2) {
        Some(rest) => trim(rest),
        None => trim(line),
    }
}

proof fn lemma_after_nth_skips_plain(a: Seq<char>, s: Seq<char>, c: char, n: nat)
    requires
        n > 0,
        !a.contains(c),
    ensures
        after_nth(a + s, c, n) == after_nth(s, c, n),
    decreases a.len(),
{
    if a.len() > 0 {
        assert((a + s)[0] == a[0]);
        assert((a + s).drop_first() =~= a.drop_first() + s);
        if a.drop_first().contains(c) {
            let k = choose|k: int| 0 <= k < a.drop_first().len() && a.drop_first()[k] == c;
            assert(a[k + 1] == c);
        }
        lemma_after_nth_skips_plain(a.drop_first(), s, c, n);
    } else {
        assert(a + s =~= s);
    }
}

/// The device name of a line `a:b:c` whose first two fields hold no colon is
/// `c` without surrounding white space; further colons stay in the name.
pub proof fn lemma_device_name_after_second_colon(a: Seq<char>, b: Seq<char>, c: Seq<char>)
    requires
        !a.contains(':'),
        !b.contains(':'),
    ensures
        device_name(a + seq![':'] + b + seq![':'] + c) == trim(c),
{
    let line = a + seq![':'] + b + seq![':'] + c;
    let rest1 = seq![':'] + b + seq![':'] + c;
    let rest2 = b + seq![':'] + c;
    assert(line =~= a + rest1);
    lemma_after_nth_skips_plain(a, rest1, ':', 2);
    assert(rest1[0] == ':');
    assert(rest1.drop_first() =~= rest2);
    assert(rest2 =~= b + (seq![':'] + c));
    lemma_after_nth_skips_plain(b, seq![':'] + c, ':', 1);
    assert((seq![':'] + c)[0] == ':');
    assert((seq![':'] + c).drop_first() =~= c);
    let tail = seq![':'] + c;
    assert(after_nth(tail, ':', 1) == after_nth(c, ':', 0));
    assert(after_nth(rest2, ':', 1) == Some(c));
    assert(after_nth(rest1, ':', 2) == after_nth(rest2, ':', 1));
    assert(after_nth(line, ':', 2) == Some(c));
}

/// The graphics reading: `output` is what `lspci` printed, or `None` when it
/// could not be run.
pub open spec fn gpu_text(output: Option<Seq<char>>) -> Seq<char> {
    match output {
        None => "GPU no detectada"@,
        Some(o) => match first_gpu_line(lines(o)) {
            Some(i) => device_name(lines(o)[i]),
            None => "GPU no detectada"@,
        },
    }
}

/// The graphics device reported is the one on the first line of the `lspci`
/// output, in output order, whose lower-cased text names a VGA compatible,
/// 3D or display controller: no earlier line does. Without such a line, or
/// without output, no device is reported.
pub proof fn lemma_gpu_from_first_graphics_line(o: Seq<char>, i: int)
    requires
        0 <= i < lines(o).len(),
        describes_gpu(lowercase(lines(o)[i])),
        forall|j: int| 0 <= j < i ==> !describes_gpu(lowercase(#[trigger] lines(o)[j])),
    ensures
        gpu_text(Some(o)) == device_name(lines(o)[i]),
{
    lemma_first_gpu_line_is_first(lines(o));
    match first_gpu_line(lines(o)) {
        Some(k) => {
            if k < i {
                assert(!describes_gpu(lowercase(lines(o)[k])));
            }
            if i < k {
                assert(!describes_gpu(lowercase(lines(o)[i])));
            }
        },
        None => {
            assert(!describes_gpu(lowercase(lines(o)[i])));
        },
    }
}

/// Without a line that describes a graphics device, none is reported.
pub proof fn lemma_gpu_none_without_graphics_line(o: Seq<char>)
    requires
        forall|j: int| 0 <= j < lines(o).len() ==> !describes_gpu(lowercase(#[trigger] lines(o)[j])),
    ensures
        gpu_text(Some(o)) == "GPU no detectada"@,
        gpu_text(None) == "GPU no detectada"@,
{
    lemma_first_gpu_line_is_first(lines(o));
    if first_gpu_line(lines(o)) is Some {
        let k = first_gpu_line(lines(o))->0;
        assert(!describes_gpu(lowercase(lines(o)[k])));
    }
}

/// The name of the graphics device listed by `lspci`.
pub fn detect_gpu(output: Option<&str>) -> (r: String)
    ensures
        r@ == gpu_text(opt_str(output)),
{
    match output {
        None => "GPU no detectada".to_string(),
        Some(o) => {
            let ls = split_lines(&chars_of(o));
            let ghost lv = views_of(ls@);
            let mut i: usize = 0;
            while i < ls.len()
                invariant
                    i <= ls.len(),
                    lv == views_of(ls@),
                    lv == lines(o@),
                    opt_str(output) == Some(o@),
                    first_gpu_line(lv.take(i as int)) is None,
                decreases ls.len() - i,
            {
                assert(lv.take(i + 1).drop_last() =~= lv.take(i as int));
                let line = &ls[i];
                let lowered = chars_of(to_lowercase(string_of(line).as_str()).as_str());
                assert(line@ == lv[i as int]);
                if is_gpu_line(&lowered) {
                    assert(lv.take(i + 1).last() == lv[i as int]);
                    assert(first_gpu_line(lv.take(i + 1)) == Some(i as int));
                    proof {
                        lemma_first_gpu_line_prefix(lv, i + 1);
                    }
                    let name = match after_nth_chars(line, ':', 2) {
                        Some(rest) => trim_chars(&rest),
                        None => trim_chars(line),
                    };
                    return string_of(&name);
                }
                i = i + 1;
            }
            assert(lv.take(ls.len() as int) =~= lv);
            "GPU no detectada".to_string()
        },
    }
}


/// The free-space reading: `output` is what `df -h /` printed, or `None` when
/// it could not be run. The fourth field of its second line is the free space.
pub open spec fn disk_text(output: Option<Seq<char>>) -> Seq<char> {
    match output {
        Some(o) => if lines(o).len() > 1 && words(lines(o)[1]).len() > 3 {
            words(lines(o)[1])[3] + " libres"@
        } else {
            "No disponible"@
        },
        None => "No disponible"@,
    }
}

/// The free space on the root file system, as shown to the user.
pub fn disk_free(output: Option<&str>) -> (r: String)
    ensures
        r@ == disk_text(opt_str(output)),
{
    match output {
        None => "No disponible".to_string(),
        Some(o) => {
            let ls = split_lines(&chars_of(o));
            if ls.len() > 1 {
                let ws = split_words(&ls[1]);
                if ws.len() > 3 {
                    let mut free = sub_vec(&ws[3], 0, ws[3].len());
                    assert(free@ =~= ws@[3]@);
                    let mut tail = chars_of(" libres");
                    free.append(&mut tail);
                    return string_of(&free);
                }
            }
            "No disponible".to_string()
        },
    }
}

/// The services that count as a firewall.
pub open spec fn firewall_service_names() -> Seq<Seq<char>> {
    seq!["firewalld"@, "ufw"@]
}

/// The services that count as a firewall, in the order they are asked about.
pub fn firewall_services() -> (r: Vec<String>)
    ensures
        string_views(r@) == firewall_service_names(),
{
    let r = vec!["firewalld".to_string(), "ufw".to_string()];
    assert(string_views(r@) =~= firewall_service_names());
    r
}

/// The service reading: unknown without `systemctl`, active when one of
/// `names` is among the services `systemctl` reports active.
pub open spec fn service_text(
    systemctl_available: bool,
    names: Seq<Seq<char>>,
    active: Seq<Seq<char>>,
) -> Seq<char> {
    if !systemctl_available {
        "Desconocido"@
    } else if exists|i: int| 0 <= i < names.len() && active.contains(#[trigger] names[i]) {
        "Activo"@
    } else {
        "No detectado"@
    }
}

/// Whether one of the services `names` runs, as shown to the user.
pub fn service_status(systemctl_available: bool, names: &Vec<String>, active: &Vec<String>) -> (r:
    String)
    ensures
        r@ == service_text(systemctl_available, string_views(names@), string_views(active@)),
{
    if !systemctl_available {
        return "Desconocido".to_string();
    }
    let mut i: usize = 0;
    while i < names.len()
        invariant
            i <= names.len(),
            systemctl_available,
            forall|j: int|
                0 <= j < i ==> !string_views(active@).contains(#[trigger] string_views(names@)[j]),
        decreases names.len() - i,
    {
        if contains_string(active, &names[i]) {
            assert(string_views(active@).contains(string_views(names@)[i as int]));
            return "Activo".to_string();
        }
        i = i + 1;
    }
    "No detectado".to_string()
}

/// The snapshot reading: configured when `timeshift` or `snapper` is
/// installed or the `/.snapshots` folder exists.
pub open spec fn snapshot_text(timeshift: bool, snapper: bool, snapshots_dir: bool) -> Seq<char> {
    if timeshift || snapper || snapshots_dir {
        "Configurados"@
    } else {
        "No configurados"@
    }
}

/// Whether system snapshots are set up, as shown to the user.
pub fn snapshot_status(timeshift: bool, snapper: bool, snapshots_dir: bool) -> (r: String)
    ensures
        r@ == snapshot_text(timeshift, snapper, snapshots_dir),
{
    if timeshift || snapper || snapshots_dir {
        "Configurados".to_string()
    } else {
        "No configurados".to_string()
    }
}

/// The session reading: `session_type` is the value of `XDG_SESSION_TYPE`,
/// `None` when it is not set.
pub open spec fn session_text(session_type: Option<Seq<char>>) -> Seq<char> {
    match session_type {
        None => "No disponible"@,
        Some(t) => if eq_ignore_ascii_case(t, "wayland"@) {
            "Wayland"@
        } else {
            "X11"@
        },
    }
}

/// The kind of graphical session, as shown to the user.
pub fn session_label(session_type: Option<&str>) -> (r: String)
    ensures
        r@ == session_text(opt_str(session_type)),
{
    match session_type {
        None => "No disponible".to_string(),
        Some(t) => if eq_ignore_ascii_case_chars(&chars_of(t), &chars_of("wayland")) {
            "Wayland".to_string()
        } else {
            "X11".to_string()
        },
    }
}


/// The release files that name the system version, in the order they are
/// consulted.
pub open spec fn release_path_list() -> Seq<Seq<char>> {
    seq!["/etc/guepardos-release"@, "/etc/os-release"@, "/etc/lsb-release"@]
}

/// The release files that name the system version, in the order they are
/// consulted.
pub fn release_paths() -> (r: Vec<String>)
    ensures
        string_views(r@) == release_path_list(),
{
    let r = vec![
        "/etc/guepardos-release".to_string(),
        "/etc/os-release".to_string(),
        "/etc/lsb-release".to_string(),
    ];
    assert(string_views(r@) =~= release_path_list());
    r
}

/// A release file: its path and its content, `None` when it could not be
/// read.
pub struct ReleaseFile {
    pub path: String,
    pub content: Option<String>,
}

/// What follows `prefix` on the first of `ls` that starts with it.
pub open spec fn prefixed_value(ls: Seq<Seq<char>>, prefix: Seq<char>) -> Option<Seq<char>>
    decreases ls.len(),
{
    if ls.len() == 0 {
        None
    } else if starts_with(ls[0], prefix) {
        Some(ls[0].skip(prefix.len() as int))
    } else {
        prefixed_value(ls.drop_first(), prefix)
    }
}

/// The version that one release file gives: the whole trimmed content of a
/// GuepardOS release file that is not blank, else the `VERSION_ID=` value
/// without its quotes.
pub open spec fn file_version(path: Seq<char>, content: Option<Seq<char>>) -> Option<Seq<char>> {
    match content {
        None => None,
        Some(c) => if ends_with(path, "guepardos-release"@) && trim(c).len() > 0 {
            Some(trim(c))
        } else {
            match prefixed_value(lines(c), "VERSION_ID="@) {
                Some(v) => Some(trim_char(v, '"')),
                None => None,
            }
        },
    }
}

/// A release file as plain values.
pub open spec fn release_file_view(f: ReleaseFile) -> (Seq<char>, Option<Seq<char>>) {
    (f.path@, opt_string(f.content))
}

/// The version given by the first release file that gives one.
pub open spec fn release_version(files: Seq<(Seq<char>, Option<Seq<char>>)>) -> Option<Seq<char>>
    decreases files.len(),
{
    if files.len() == 0 {
        None
    } else {
        match file_version(files[0].0, files[0].1) {
            Some(v) => Some(v),
            None => release_version(files.drop_first()),
        }
    }
}

/// A GuepardOS release file that holds more than white space gives the
/// version, and first among the files: its whole content with the white space
/// at both ends removed, all text between kept.
pub proof fn lemma_guepardos_release_gives_whole_content(
    path: Seq<char>,
    content: Seq<char>,
    rest: Seq<(Seq<char>, Option<Seq<char>>)>,
)
    requires
        ends_with(path, "guepardos-release"@),
        exists|i: int| 0 <= i < content.len() && !is_white_space(#[trigger] content[i]),
    ensures
        release_version(seq![(path, Some(content))] + rest) == Some(trim(content)),
        exists|a: int, b: int|
            {
                &&& 0 <= a < b <= content.len()
                &&& trim(content) == content.subrange(a, b)
                &&& forall|i: int| 0 <= i < a ==> is_white_space(#[trigger] content[i])
                &&& forall|i: int| b <= i < content.len() ==> is_white_space(#[trigger] content[i])
                &&& !is_white_space(content[a]) && !is_white_space(content[b - 1])
            },
{
    lemma_trim_keeps_inner_text(content);
    let (a, b) = choose|a: int, b: int|
        {
            &&& 0 <= a <= b <= content.len()
            &&& trim(content) == content.subrange(a, b)
            &&& forall|i: int| 0 <= i < a ==> is_white_space(#[trigger] content[i])
            &&& forall|i: int| b <= i < content.len() ==> is_white_space(#[trigger] content[i])
            &&& a < b ==> !is_white_space(content[a]) && !is_white_space(content[b - 1])
        };
    let k = choose|i: int| 0 <= i < content.len() && !is_white_space(#[trigger] content[i]);
    assert(a <= k < b);
    let files = seq![(path, Some(content))] + rest;
    assert(files[0] == (path, Some(content)));
    assert(trim(content).len() > 0);
}

fn version_id(content: &str) -> (r: Option<Vec<char>>)
    ensures
        r matches Some(v) ==> prefixed_value(lines(content@), "VERSION_ID="@) == Some(v@),
        r is None ==> prefixed_value(lines(content@), "VERSION_ID="@) is None,
{
    let ls = split_lines(&chars_of(content));
    let prefix = chars_of("VERSION_ID=");
    let ghost lv = views_of(ls@);
    let mut i: usize = 0;
    assert(lv.skip(0) =~= lv);
    while i < ls.len()
        invariant
            i <= ls.len(),
            lv == views_of(ls@),
            prefix@ == "VERSION_ID="@,
            prefixed_value(lines(content@), "VERSION_ID="@) == prefixed_value(
                lv.skip(i as int),
                "VERSION_ID="@,
            ),
        decreases ls.len() - i,
    {
        assert(lv.skip(i as int).drop_first() =~= lv.skip(i + 1));
        assert(lv.skip(i as int)[0] == ls@[i as int]@);
        if starts_with_chars(&ls[i], &prefix) {
            let v = sub_vec(&ls[i], prefix.len(), ls[i].len());
            assert(v@ =~= ls@[i as int]@.skip(prefix.len() as int));
            return Some(v);
        }
        i = i + 1;
    }
    None
}

fn file_version_of(file: &ReleaseFile) -> (r: Option<String>)
    ensures
        r matches Some(v) ==> file_version(file.path@, opt_string(file.content)) == Some(v@),
        r is None ==> file_version(file.path@, opt_string(file.content)) is None,
{
    match &file.content {
        None => None,
        Some(c) => {
            let text = chars_of(c.as_str());
            let trimmed = trim_chars(&text);
            if ends_with_chars(&chars_of(file.path.as_str()), &chars_of("guepardos-release"))
                && trimmed.len() > 0 {
                return Some(string_of(&trimmed));
            }
            match version_id(c.as_str()) {
                Some(v) => Some(string_of(&trim_char_chars(&v, '"'))),
                None => None,
            }
        },
    }
}

/// The system version named by the release files `files`, consulted in
/// order.
pub fn guepardos_version(files: &Vec<ReleaseFile>) -> (r: Option<String>)
    ensures
        opt_string(r) == release_version(files@.map_values(|f: ReleaseFile| release_file_view(f))),
{
    let ghost fv = files@.map_values(|f: ReleaseFile| release_file_view(f));
    let mut i: usize = 0;
    assert(fv.skip(0) =~= fv);
    while i < files.len()
        invariant
            i <= files.len(),
            fv == files@.map_values(|f: ReleaseFile| release_file_view(f)),
            release_version(fv) == release_version(fv.skip(i as int)),
        decreases files.len() - i,
    {
        assert(fv.skip(i as int).drop_first() =~= fv.skip(i + 1));
        assert(fv.skip(i as int)[0] == release_file_view(files@[i as int]));
        match file_version_of(&files[i]) {
            Some(v) => {
                return Some(v);
            },
            None => {},
        }
        i = i + 1;
    }
    None
}


/// The raw readings taken from the machine for the overview.
pub struct StatusProbe {
    /// A ping to the Internet was answered.
    pub internet: bool,
    /// What `checkupdates` printed; `None` when it is not installed or could
    /// not be run.
    pub updates_output: Option<String>,
    /// What `lspci` printed; `None` when it could not be run.
    pub lspci_output: Option<String>,
    /// The value of `XDG_SESSION_TYPE`; `None` when it is not set.
    pub session_type: Option<String>,
    /// `flatpak` is on the search path.
    pub flatpak_installed: bool,
    /// `systemctl` is on the search path.
    pub systemctl_available: bool,
    /// The firewall services that `systemctl` reports active.
    pub active_services: Vec<String>,
    /// `timeshift` is on the search path.
    pub timeshift_installed: bool,
    /// `snapper` is on the search path.
    pub snapper_installed: bool,
    /// The `/.snapshots` folder exists.
    pub snapshots_dir: bool,
    /// `bluetoothctl` is on the search path.
    pub bluetoothctl_installed: bool,
    /// The `/sys/class/bluetooth` folder exists.
    pub bluetooth_class_dir: bool,
    /// What `df -h /` printed; `None` when it could not be run.
    pub df_output: Option<String>,
    /// The `/run/reboot-required` marker exists.
    pub reboot_required: bool,
}

fn opt_as_str(o: &Option<String>) -> (r: Option<&str>)
    ensures
        opt_str(r) == opt_string(*o),
{
    match o {
        Some(s) => Some(s.as_str()),
        None => None,
    }
}

/// The overview shown for the readings `probe`.
pub fn collect(probe: &StatusProbe) -> (r: SystemStatus)
    ensures
        r.internet@ == (if probe.internet {
            "Conectado"@
        } else {
            "Sin conexión"@
        }),
        r.updates@ == updates_text(opt_string(probe.updates_output)),
        r.gpu@ == gpu_text(opt_string(probe.lspci_output)),
        r.session@ == session_text(opt_string(probe.session_type)),
        r.flatpak@ == (if probe.flatpak_installed {
            "Instalado"@
        } else {
            "No está instalado"@
        }),
        r.firewall@ == service_text(
            probe.systemctl_available,
            firewall_service_names(),
            string_views(probe.active_services@),
        ),
        r.snapshots@ == snapshot_text(
            probe.timeshift_installed,
            probe.snapper_installed,
            probe.snapshots_dir,
        ),
        r.bluetooth@ == (if probe.bluetoothctl_installed || probe.bluetooth_class_dir {
            "Disponible"@
        } else {
            "No disponible"@
        }),
        r.disk@ == disk_text(opt_string(probe.df_output)),
        r.reboot_required == probe.reboot_required,
{
    SystemStatus {
        internet: if probe.internet {
            "Conectado".to_string()
        } else {
            "Sin conexión".to_string()
        },
        updates: pending_updates(opt_as_str(&probe.updates_output)),
        gpu: detect_gpu(opt_as_str(&probe.lspci_output)),
        session: session_label(opt_as_str(&probe.session_type)),
        flatpak: if probe.flatpak_installed {
            "Instalado".to_string()
        } else {
            "No está instalado".to_string()
        },
        firewall: service_status(
            probe.systemctl_available,
            &firewall_services(),
            &probe.active_services,
        ),
        snapshots: snapshot_status(
            probe.timeshift_installed,
            probe.snapper_installed,
            probe.snapshots_dir,
        ),
        bluetooth: if probe.bluetoothctl_installed || probe.bluetooth_class_dir {
            "Disponible".to_string()
        } else {
            "No disponible".to_string()
        },
        disk: disk_free(opt_as_str(&probe.df_output)),
        reboot_required: probe.reboot_required,
    }
}

} // verus!
