//! The desktop launcher's app-agnostic logic: each supervised app is
//! described by a small config saying how to start its server and how to
//! inject the chosen host:port, by patching a key in the app's own TOML
//! config (`configfile`), by environment variables (`env`), or through
//! `{host}`/`{port}` placeholders already in its arguments (`args`).

use crate::text;
use crate::text::{concat2, decimal_string, owned, replace_str, starts_with, strip_prefix, strings_view};
use vstd::prelude::*;

verus! {

// ---------------------------------------------------------------- schema --

/// Top-level `launcher.toml` schema.
pub struct LauncherConfig {
    pub app: AppSpec,
    pub inject: InjectSpec,
}

pub struct AppSpec {
    /// Display name shown in the panel and tray.
    pub name: String,
    /// Absolute path to the server binary (or a command on PATH).
    pub command: String,
    /// Arguments; `{host}`, `{port}` and `{config}` are placeholders.
    pub args: Vec<String>,
    /// URL template shown to the user, e.g. `http://{host}:{port}/`.
    pub url: String,
    /// Default port pre-filled in the UI.
    pub default_port: u16,
    /// Working directory for the child; defaults to the work directory.
    pub cwd: Option<String>,
    /// Palette (CSS custom-property name -> value), in key order.
    pub theme: Vec<(String, String)>,
}

pub struct InjectSpec {
    /// `configfile` | `env` | `args`.
    pub mode: String,
    pub configfile: Option<ConfigFileInject>,
    /// For `env` mode: variable name -> value template, in key order.
    pub env: Vec<(String, String)>,
}

pub struct ConfigFileInject {
    /// Path to the app's own config file, used as a template.
    pub template: String,
    /// Dotted key to overwrite, e.g. `web.bind`.
    pub set_key: String,
    /// Value template written at `set_key`.
    pub value: String,
}

/// A network interface offered in the interface picker.
pub struct Interface {
    /// Interface name, e.g. `en0`, or `all` for the 0.0.0.0 pseudo-entry.
    pub name: String,
    /// IPv4 address to bind to (`0.0.0.0` for the "all" entry).
    pub ip: String,
    /// Human label, e.g. `en0: 10.147.17.93`.
    pub label: String,
    pub loopback: bool,
}

/// The concrete command to spawn, after host:port injection.
pub struct Launch {
    pub program: String,
    pub args: Vec<String>,
    pub envs: Vec<(String, String)>,
    pub cwd: Option<String>,
}

pub fn default_url() -> (s: String)
    ensures
        s@ == "http://{host}:{port}/"@,
{
    owned("http://{host}:{port}/")
}

pub fn default_port() -> (p: u16)
    ensures
        p == 8080,
{
    8080
}

pub fn default_bind_value() -> (s: String)
    ensures
        s@ == "{host}:{port}"@,
{
    owned("{host}:{port}")
}

// ---------------------------------------------------------- substitution --

/// `{host}` and `{port}` substituted, then `{config}` when a config path is
/// given.
pub open spec fn subst_spec(s: Seq<char>, host: Seq<char>, port: u16, config: Option<Seq<char>>) -> Seq<
    char,
> {
    let a = text::replace_all(s, "{host}"@, host);
    let b = text::replace_all(a, "{port}"@, text::decimal(port as nat));
    match config {
        Some(c) => text::replace_all(b, "{config}"@, c),
        None => b,
    }
}

pub open spec fn opt_view(o: Option<&str>) -> Option<Seq<char>> {
    match o {
        Some(s) => Some(s@),
        None => None,
    }
}

/// Substitutes `{host}`/`{port}` (and `{config}` when provided) in a template.
pub fn subst(s: &str, host: &str, port: u16, config: Option<&str>) -> (r: String)
    ensures
        r@ == subst_spec(s@, host@, port, opt_view(config)),
{
    proof {
        reveal_strlit("{host}");
        reveal_strlit("{port}");
        reveal_strlit("{config}");
    }
    let a = replace_str(s, "{host}", host);
    let p = decimal_string(port as u64);
    let b = replace_str(a.as_str(), "{port}", p.as_str());
    match config {
        Some(c) => replace_str(b.as_str(), "{config}", c),
        None => b,
    }
}

/// `{resource}` replaced by the bundle's resource directory, when there is
/// one; without one the placeholder stays as written.
pub open spec fn fill_resource_spec(s: Seq<char>, resource: Option<Seq<char>>) -> Seq<char> {
    match resource {
        Some(r) => text::replace_all(s, "{resource}"@, r),
        None => s,
    }
}

/// Substitutes `{resource}` with the resource directory, when one is given.
pub fn fill_resource(s: &str, resource: Option<&str>) -> (r: String)
    ensures
        r@ == fill_resource_spec(s@, opt_view(resource)),
{
    proof {
        reveal_strlit("{resource}");
    }
    match resource {
        Some(dir) => replace_str(s, "{resource}", dir),
        None => owned(s),
    }
}

// ----------------------------------------------------------------- paths --

/// Forward slashes turned into backslashes.
pub open spec fn backslashed(s: Seq<char>) -> Seq<char> {
    s.map_values(|c: char| if c == '/' { '\\' } else { c })
}

pub open spec fn is_ascii_alpha(c: char) -> bool {
    ('a' <= c && c <= 'z') || ('A' <= c && c <= 'Z')
}

/// A Windows path in the form Win32 resolves: a verbatim UNC prefix becomes a
/// plain UNC one, a verbatim drive prefix is dropped, a verbatim device path
/// (which has no other spelling) is left exactly as it came, and forward
/// slashes become backslashes everywhere else.
pub open spec fn simplified(p: Seq<char>) -> Seq<char> {
    if text::has_prefix(p, "\\\\?\\UNC\\"@) {
        "\\\\"@ + backslashed(p.skip(8))
    } else if text::has_prefix(p, "\\\\?\\"@) {
        let rest = p.skip(4);
        if rest.len() >= 2 && is_ascii_alpha(rest[0]) && rest[1] == ':' {
            backslashed(rest)
        } else {
            p
        }
    } else {
        backslashed(p)
    }
}

fn backslash_all(s: &str) -> (r: String)
    ensures
        r@ == backslashed(s@),
{
    let cs = text::chars_of(s);
    let mut out: Vec<char> = Vec::new();
    let mut i: usize = 0;
    while i < cs.len()
        invariant
            cs@ == s@,
            i <= cs@.len(),
            out@ =~= backslashed(cs@).take(i as int),
        decreases cs@.len() - i,
    {
        let c = cs[i];
        out.push(if c == '/' { '\\' } else { c });
        i = i + 1;
    }
    proof {
        assert(backslashed(cs@).take(i as int) =~= backslashed(cs@));
    }
    text::string_from_chars(out.as_slice())
}

/// Rewrites a Windows path into the form Win32 actually resolves: no
/// verbatim prefix, backslash separators throughout. A path from a
/// canonicalized resource directory comes back verbatim (`\\?\C:\...`), and
/// Win32 does no separator translation inside a verbatim path.
pub fn simplify_windows_path(path: &str) -> (r: String)
    ensures
        r@ == simplified(path@),
{
    proof {
        reveal_strlit("\\\\?\\UNC\\");
        reveal_strlit("\\\\?\\");
        reveal_strlit("\\\\");
    }
    if let Some(rest) = strip_prefix(path, "\\\\?\\UNC\\") {
        return concat2("\\\\", backslash_all(rest.as_str()).as_str());
    }
    if let Some(rest) = strip_prefix(path, "\\\\?\\") {
        let cs = text::chars_of(rest.as_str());
        let is_drive = cs.len() >= 2 && (('a' <= cs[0] && cs[0] <= 'z') || ('A' <= cs[0] && cs[0]
            <= 'Z')) && cs[1] == ':';
        if !is_drive {
            return owned(path);
        }
        return backslash_all(rest.as_str());
    }
    backslash_all(path)
}

/// A simplified path holds no forward slash, unless it is a verbatim path
/// that is neither UNC nor a drive path (a device path), which is left
/// exactly as it came.
pub proof fn law_simplified_has_no_forward_slash(p: Seq<char>)
    ensures
        simplified(p) == p || forall|i: int|
            0 <= i < simplified(p).len() ==> #[trigger] simplified(p)[i] != '/',
{
    reveal_strlit("\\\\");
    assert forall|s: Seq<char>, i: int| 0 <= i < backslashed(s).len() implies #[trigger] backslashed(
        s,
    )[i] != '/' by {}
    if text::has_prefix(p, "\\\\?\\UNC\\"@) {
        let r = "\\\\"@ + backslashed(p.skip(8));
        assert forall|i: int| 0 <= i < r.len() implies r[i] != '/' by {
            if i >= 2 {
                assert(r[i] == backslashed(p.skip(8))[i - 2]);
            }
        }
    }
}

pub open spec fn native_spec(path: Seq<char>, windows: bool) -> Seq<char> {
    if windows {
        simplified(path)
    } else {
        path
    }
}

/// [`simplify_windows_path`] when building for Windows, the path unchanged
/// elsewhere.
pub fn native_path(path: &str, windows: bool) -> (r: String)
    ensures
        r@ == native_spec(path@, windows),
{
    if windows {
        simplify_windows_path(path)
    } else {
        owned(path)
    }
}

/// A relative path that no platform reads specially: it does not start with
/// `/` or `\\` (a root, or a UNC or verbatim prefix), and holds no `:` (a
/// drive prefix).
pub open spec fn plain_path(p: Seq<char>) -> bool {
    !p.contains(':') && (p.len() == 0 || (p[0] != '/' && p[0] != '\\'))
}

/// A verbatim path: `\\?\` (either separator) before the rest, which Windows
/// takes as written and normalizes when it is extended.
pub open spec fn verbatim_path(p: Seq<char>) -> bool {
    p.len() >= 4 && (p[0] == '/' || p[0] == '\\') && (p[1] == '/' || p[1] == '\\') && p[2] == '?'
        && (p[3] == '/' || p[3] == '\\')
}

/// `Path::is_absolute`: whether `path` is absolute by the path rules of the
/// platform the code is built for. On Unix a path is absolute when it starts
/// with the root; on Windows when it has a prefix (a drive `C:`, or one that
/// starts with `\\`) and a root. Either way a plain path is not absolute,
/// and that is what is stated.
#[verifier::external_body]
fn path_is_absolute(path: &str) -> (r: bool)
    ensures
        plain_path(path@) ==> !r,
{
    std::path::Path::new(path).is_absolute()
}

/// `Path::join`, as text: `path` appended to `base` by the platform's path
/// rules (`PathBuf::push`). A plain path on a base that is not verbatim is
/// neither absolute, nor prefixed, nor rooted, so it is appended as it is,
/// after the platform's separator unless the base is empty, already ends in
/// a separator, or is a bare drive; that is what is stated.
#[verifier::external_body]
fn path_join(base: &str, path: &str) -> (r: String)
    ensures
        plain_path(path@) && !verbatim_path(base@) ==> (r@ == base@ + path@ || r@ == base@ + "/"@
            + path@ || r@ == base@ + "\\"@ + path@),
{
    std::path::Path::new(base).join(path).to_string_lossy().into_owned()
}

/// An absolute path keeps its location; a relative one is taken inside the
/// base directory when there is one (`joined`); either way the result is
/// spelled the platform's way.
pub open spec fn resolved_spec(path: Seq<char>, absolute: bool, joined: Option<Seq<char>>, windows: bool) -> Seq<
    char,
> {
    if absolute {
        native_spec(path, windows)
    } else {
        match joined {
            Some(j) => native_spec(j, windows),
            None => native_spec(path, windows),
        }
    }
}

/// Resolves a path once the platform has said whether it is absolute and,
/// when there is a base directory, what joining the two gives.
pub fn resolve_with(path: &str, absolute: bool, joined: Option<String>, windows: bool) -> (r: String)
    ensures
        r@ == resolved_spec(path@, absolute, opt_string_view(joined), windows),
{
    if absolute {
        return native_path(path, windows);
    }
    match joined {
        Some(j) => native_path(j.as_str(), windows),
        None => native_path(path, windows),
    }
}

/// A path is absolute by the Unix rules when it starts with the root, `/`.
pub open spec fn unix_absolute(p: Seq<char>) -> bool {
    p.len() > 0 && p[0] == '/'
}

/// `base` joined with `p` by the Unix rules: an absolute `p` replaces the
/// base; a relative one is appended, with a `/` between the two unless the
/// base is empty or already ends in one.
pub open spec fn unix_joined(base: Seq<char>, p: Seq<char>) -> Seq<char> {
    if unix_absolute(p) {
        p
    } else if base.len() == 0 || base.last() == '/' {
        base + p
    } else {
        base + seq!['/'] + p
    }
}

fn starts_with_slash(s: &str) -> (r: bool)
    ensures
        r == unix_absolute(s@),
{
    let cs = text::chars_of(s);
    cs.len() > 0 && cs[0] == '/'
}

fn ends_with_slash(s: &str) -> (r: bool)
    ensures
        r == (s@.len() > 0 && s@.last() == '/'),
{
    let cs = text::chars_of(s);
    cs.len() > 0 && cs[cs.len() - 1] == '/'
}

/// Resolves a possibly relative path against `base` (the bundle's resource
/// directory) and spells it the platform's way, so that development configs
/// with absolute paths and shipped bundles with relative ones both work.
/// Without a base the path is only respelled. The Unix rules are a few
/// lines and are spelled out here; the Windows rules (prefixes, verbatim
/// paths) are std's `Path::is_absolute` and `Path::join`.
pub fn resolve_against(path: &str, base: Option<&str>, windows: bool) -> (r: String)
    ensures
        base is None ==> r@ == native_spec(path@, windows),
        !windows ==> r@ == match base {
            Some(d) => unix_joined(d@, path@),
            None => path@,
        },
        windows ==> exists|absolute: bool, joined: Option<Seq<char>>|
            r@ == resolved_spec(path@, absolute, joined, windows) && (base is None ==> joined is None),
        windows && plain_path(path@) ==> match base {
            Some(b) => !verbatim_path(b@) ==> (r@ == simplified(b@ + path@) || r@ == simplified(
                b@ + "/"@ + path@,
            ) || r@ == simplified(b@ + "\\"@ + path@)),
            None => true,
        },
{
    if !windows {
        return match base {
            None => owned(path),
            Some(d) => {
                if starts_with_slash(path) {
                    owned(path)
                } else if d.unicode_len() == 0 || ends_with_slash(d) {
                    concat2(d, path)
                } else {
                    let with_sep = concat2(d, "/");
                    proof {
                        reveal_strlit("/");
                        assert("/"@ =~= seq!['/']);
                    }
                    concat2(with_sep.as_str(), path)
                }
            },
        };
    }
    let absolute = path_is_absolute(path);
    let joined = match base {
        Some(dir) if !absolute => Some(path_join(dir, path)),
        _ => None,
    };
    let r = resolve_with(path, absolute, joined, windows);
    proof {
        assert(r@ == resolved_spec(path@, absolute, opt_string_view(joined), windows));
    }
    r
}

/// The program's path before any `.exe` is added: the configured command with
/// `{resource}` filled in, resolved against the resource directory and
/// spelled the platform's way.
pub fn resolve_program(command: &str, resource_dir: Option<&str>, windows: bool) -> (r: String)
    ensures
        resource_dir is None ==> r@ == native_spec(command@, windows),
        !windows ==> r@ == match resource_dir {
            Some(d) => unix_joined(d@, fill_resource_spec(command@, Some(d@))),
            None => command@,
        },
{
    let filled = fill_resource(command, resource_dir);
    resolve_against(filled.as_str(), resource_dir, windows)
}

/// The program to spawn: on Windows a bundled command ships as `name.exe`
/// while the config names it `name`, so when the name has no extension, no
/// file of that name exists and `name.exe` does, the `.exe` is added.
/// Elsewhere the program is kept as it is.
pub fn with_windows_exe(
    program: String,
    windows: bool,
    has_extension: bool,
    program_exists: bool,
    exe_exists: bool,
) -> (r: String)
    ensures
        windows && !has_extension && !program_exists && exe_exists ==> r@ == program@ + ".exe"@,
        !(windows && !has_extension && !program_exists && exe_exists) ==> r == program,
{
    if windows && !has_extension && !program_exists && exe_exists {
        concat2(program.as_str(), ".exe")
    } else {
        program
    }
}

// ------------------------------------------------------------ interfaces --

/// An address of this host as the interface enumeration reports it.
pub struct HostAddress {
    pub name: String,
    /// The IPv4 octets, or `None` for an IPv6 address.
    pub ipv4: Option<(u8, u8, u8, u8)>,
    pub loopback: bool,
}

pub struct InterfaceView {
    pub name: Seq<char>,
    pub ip: Seq<char>,
    pub label: Seq<char>,
    pub loopback: bool,
}

impl View for Interface {
    type V = InterfaceView;

    open spec fn view(&self) -> InterfaceView {
        InterfaceView {
            name: self.name@,
            ip: self.ip@,
            label: self.label@,
            loopback: self.loopback,
        }
    }
}

pub open spec fn interfaces_view(v: Seq<Interface>) -> Seq<InterfaceView> {
    v.map_values(|i: Interface| i@)
}

/// `a.b.c.d` in decimal (`Display` for `Ipv4Addr`).
pub open spec fn dotted_quad(o: (u8, u8, u8, u8)) -> Seq<char> {
    text::decimal(o.0 as nat) + "."@ + text::decimal(o.1 as nat) + "."@ + text::decimal(
        o.2 as nat,
    ) + "."@ + text::decimal(o.3 as nat)
}

pub fn ipv4_text(o: (u8, u8, u8, u8)) -> (s: String)
    ensures
        s@ == dotted_quad(o),
{
    let mut s = decimal_string(o.0 as u64);
    s.append(".");
    s.append(decimal_string(o.1 as u64).as_str());
    s.append(".");
    s.append(decimal_string(o.2 as u64).as_str());
    s.append(".");
    s.append(decimal_string(o.3 as u64).as_str());
    s
}

/// The "all interfaces" pseudo-entry that heads the list.
pub open spec fn all_entry() -> InterfaceView {
    InterfaceView {
        name: "all"@,
        ip: "0.0.0.0"@,
        label: "All interfaces (0.0.0.0)"@,
        loopback: false,
    }
}

/// The entry for one IPv4 host address.
pub open spec fn entry_of(name: Seq<char>, o: (u8, u8, u8, u8), loopback: bool) -> InterfaceView {
    InterfaceView {
        name: name,
        ip: dotted_quad(o),
        label: name + ": "@ + dotted_quad(o),
        loopback: loopback,
    }
}

/// The picker's list for the given host addresses: the "all" entry first,
/// then one entry per IPv4 address in order; IPv6 addresses are skipped.
pub open spec fn interfaces_spec(host: Seq<HostAddress>) -> Seq<InterfaceView>
    decreases host.len(),
{
    if host.len() == 0 {
        seq![all_entry()]
    } else {
        let rest = interfaces_spec(host.drop_last());
        let a = host.last();
        match a.ipv4 {
            Some(o) => rest.push(entry_of(a.name@, o, a.loopback)),
            None => rest,
        }
    }
}

pub fn interfaces_from(host: &Vec<HostAddress>) -> (out: Vec<Interface>)
    ensures
        interfaces_view(out@) == interfaces_spec(host@),
{
    let mut out: Vec<Interface> = Vec::new();
    out.push(
        Interface {
            name: owned("all"),
            ip: owned("0.0.0.0"),
            label: owned("All interfaces (0.0.0.0)"),
            loopback: false,
        },
    );
    proof {
        assert(host@.take(0).len() == 0);
        assert(interfaces_view(out@) =~= interfaces_spec(host@.take(0)));
    }
    let mut i: usize = 0;
    while i < host.len()
        invariant
            i <= host@.len(),
            interfaces_view(out@) == interfaces_spec(host@.take(i as int)),
        decreases host@.len() - i,
    {
        let a = &host[i];
        proof {
            assert(host@.take(i + 1).drop_last() =~= host@.take(i as int));
        }
        if let Some(o) = a.ipv4 {
            let ip = ipv4_text(o);
            let mut label = a.name.clone();
            label.append(": ");
            label.append(ip.as_str());
            let ghost before = out@;
            out.push(Interface { name: a.name.clone(), ip, label, loopback: a.loopback });
            proof {
                assert(interfaces_view(out@) =~= interfaces_view(before).push(
                    entry_of(a.name@, o, a.loopback),
                ));
            }
        }
        i = i + 1;
    }
    proof {
        assert(host@.take(i as int) =~= host@);
    }
    out
}

/// The first entry that is neither the "all" entry nor a loopback address,
/// or `None`.
pub open spec fn first_routable(l: Seq<InterfaceView>) -> Option<int> {
    if exists|i: int| 0 <= i < l.len() && l[i].name != "all"@ && !l[i].loopback {
        Some(
            choose|i: int|
                0 <= i < l.len() && l[i].name != "all"@ && !l[i].loopback && forall|j: int|
                    0 <= j < i ==> !(l[j].name != "all"@ && !l[j].loopback),
        )
    } else {
        None
    }
}

/// The display host for "all interfaces": the first non-loopback IPv4
/// address, else the loopback address.
pub open spec fn primary_ip_spec(l: Seq<InterfaceView>) -> Seq<char> {
    match first_routable(l) {
        Some(i) => l[i].ip,
        None => "127.0.0.1"@,
    }
}

fn is_all(s: &String) -> (r: bool)
    ensures
        r == (s@ == "all"@),
{
    *s == owned("all")
}

/// [`primary_ip`] over a given interface list.
pub fn primary_ip_in(ifaces: &Vec<Interface>) -> (ip: String)
    ensures
        ip@ == primary_ip_spec(interfaces_view(ifaces@)),
{
    let ghost l = interfaces_view(ifaces@);
    let mut i: usize = 0;
    while i < ifaces.len()
        invariant
            i <= ifaces@.len(),
            l == interfaces_view(ifaces@),
            forall|j: int| 0 <= j < i ==> !(l[j].name != "all"@ && !l[j].loopback),
        decreases ifaces@.len() - i,
    {
        if !is_all(&ifaces[i].name) && !ifaces[i].loopback {
            proof {
                assert(l[i as int].name != "all"@ && !l[i as int].loopback);
                let k = choose|k: int|
                    0 <= k < l.len() && l[k].name != "all"@ && !l[k].loopback && forall|j: int|
                        0 <= j < k ==> !(l[j].name != "all"@ && !l[j].loopback);
                if k < i {
                } else if k > i {
                    assert(!(l[i as int].name != "all"@ && !l[i as int].loopback));
                }
                assert(k == i);
            }
            return ifaces[i].ip.clone();
        }
        i = i + 1;
    }
    proof {
        assert(!exists|k: int| 0 <= k < l.len() && l[k].name != "all"@ && !l[k].loopback);
    }
    owned("127.0.0.1")
}

/// The index of the first entry named `name`.
pub open spec fn first_named(l: Seq<InterfaceView>, name: Seq<char>) -> Option<int> {
    if exists|i: int| 0 <= i < l.len() && l[i].name == name {
        Some(
            choose|i: int|
                0 <= i < l.len() && l[i].name == name && forall|j: int|
                    0 <= j < i ==> l[j].name != name,
        )
    } else {
        None
    }
}

/// `(bind_host, display_host)` for a chosen interface: the "all" entry binds
/// 0.0.0.0 and shows the primary address; a named interface binds and shows
/// its own address; an interface that vanished falls back to "all".
pub open spec fn resolve_hosts_spec(l: Seq<InterfaceView>, interface: Seq<char>) -> (Seq<char>, Seq<
    char,
>) {
    match first_named(l, interface) {
        Some(i) => if l[i].name == "all"@ {
            ("0.0.0.0"@, primary_ip_spec(l))
        } else {
            (l[i].ip, l[i].ip)
        },
        None => ("0.0.0.0"@, primary_ip_spec(l)),
    }
}

/// [`resolve_hosts`] over a given interface list.
pub fn resolve_hosts_in(ifaces: &Vec<Interface>, interface: &str) -> (r: (String, String))
    ensures
        (r.0@, r.1@) == resolve_hosts_spec(interfaces_view(ifaces@), interface@),
{
    let ghost l = interfaces_view(ifaces@);
    let wanted = owned(interface);
    let mut i: usize = 0;
    while i < ifaces.len()
        invariant
            i <= ifaces@.len(),
            l == interfaces_view(ifaces@),
            wanted@ == interface@,
            forall|j: int| 0 <= j < i ==> l[j].name != interface@,
        decreases ifaces@.len() - i,
    {
        if ifaces[i].name == wanted {
            proof {
                assert(l[i as int].name == interface@);
                let k = choose|k: int|
                    0 <= k < l.len() && l[k].name == interface@ && forall|j: int|
                        0 <= j < k ==> l[j].name != interface@;
                if k > i {
                    assert(l[i as int].name != interface@);
                }
                assert(k == i);
            }
            if is_all(&ifaces[i].name) {
                return (owned("0.0.0.0"), primary_ip_in(ifaces));
            }
            return (ifaces[i].ip.clone(), ifaces[i].ip.clone());
        }
        i = i + 1;
    }
    (owned("0.0.0.0"), primary_ip_in(ifaces))
}

/// A host address whose IPv4 octets are known is a loopback one exactly when
/// it lies in 127.0.0.0/8.
pub open spec fn loopback_consistent(h: Seq<HostAddress>) -> bool {
    forall|k: int|
        0 <= k < h.len() ==> ((#[trigger] h[k]).ipv4 matches Some(o) ==> h[k].loopback == (o.0
            == 127))
}

/// This host's addresses, as plain values, one per interface address the
/// operating system lists (none when it refuses to list them).
fn host_addresses() -> (r: Vec<HostAddress>)
    ensures
        loopback_consistent(r@),
{
    let mut out: Vec<HostAddress> = Vec::new();
    match crate::host::host_interfaces() {
        Some(list) => {
            let mut i: usize = 0;
            while i < list.len()
                invariant
                    i <= list@.len(),
                    loopback_consistent(out@),
                decreases list@.len() - i,
            {
                let it = &list[i];
                let (ipv4, loopback) = crate::host::host_interface_address(it);
                let ghost before = out@;
                out.push(HostAddress { name: crate::host::host_interface_name(it), ipv4, loopback });
                proof {
                    assert forall|k: int| 0 <= k < out@.len() implies ((#[trigger] out@[k]).ipv4 matches Some(o)
                        ==> out@[k].loopback == (o.0 == 127)) by {
                        if k < before.len() {
                            assert(out@[k] == before[k]);
                        }
                    }
                }
                i = i + 1;
            }
        },
        None => {},
    }
    out
}

/// Enumerates bindable IPv4 interfaces, with an "All interfaces" entry first.
pub fn list_interfaces() -> (out: Vec<Interface>)
    ensures
        exists|h: Seq<HostAddress>| loopback_consistent(h) && interfaces_view(out@) == interfaces_spec(h),
{
    let host = host_addresses();
    interfaces_from(&host)
}

/// The first non-loopback IPv4 address of this host, used as the display
/// host for "All interfaces".
pub fn primary_ip() -> (ip: String)
    ensures
        exists|h: Seq<HostAddress>| loopback_consistent(h) && ip@ == primary_ip_spec(interfaces_spec(h)),
{
    let host = host_addresses();
    let l = interfaces_from(&host);
    primary_ip_in(&l)
}

/// Resolves a chosen interface name into `(bind_host, display_host)`.
pub fn resolve_hosts(interface: &str) -> (r: (String, String))
    ensures
        exists|h: Seq<HostAddress>| loopback_consistent(h) && (r.0@, r.1@) == resolve_hosts_spec(
            interfaces_spec(h),
            interface@,
        ),
{
    let host = host_addresses();
    let l = interfaces_from(&host);
    resolve_hosts_in(&l, interface)
}

// ------------------------------------------------------------- injection --

/// How the chosen host:port reaches the app, with the templates filled in.
pub enum Injection {
    /// Patch `set_key` to `value` in the app's config `template`, and pass the
    /// rendered file's path as `{config}`.
    ConfigFile { template: String, set_key: String, value: String },
    /// Set these environment variables.
    Env(Vec<(String, String)>),
    /// The placeholders are already in the arguments.
    Args,
}

pub open spec fn pair_strings_view(v: Seq<(String, String)>) -> Seq<(Seq<char>, Seq<char>)> {
    v.map_values(|p: (String, String)| (p.0@, p.1@))
}

/// The `env` injection: each variable with its value template filled in.
pub open spec fn env_spec(env: Seq<(String, String)>, host: Seq<char>, port: u16) -> Seq<
    (Seq<char>, Seq<char>),
> {
    env.map_values(|p: (String, String)| (p.0@, subst_spec(p.1@, host, port, None)))
}

pub open spec fn missing_configfile_message() -> Seq<char> {
    "inject.mode = \"configfile\" but [inject.configfile] is missing"@
}

fn fill_env(env: &Vec<(String, String)>, host: &str, port: u16) -> (out: Vec<(String, String)>)
    ensures
        pair_strings_view(out@) == env_spec(env@, host@, port),
{
    let mut out: Vec<(String, String)> = Vec::new();
    let mut i: usize = 0;
    while i < env.len()
        invariant
            i <= env@.len(),
            pair_strings_view(out@) =~= env_spec(env@, host@, port).take(i as int),
        decreases env@.len() - i,
    {
        let k = env[i].0.clone();
        let v = subst(env[i].1.as_str(), host, port, None);
        let ghost before = out@;
        out.push((k, v));
        proof {
            assert(pair_strings_view(before).len() == i);
            assert(pair_strings_view(out@)[i as int] == env_spec(env@, host@, port)[i as int]);
            assert forall|j: int| 0 <= j < i implies pair_strings_view(out@)[j]
                == pair_strings_view(before)[j] by {
                assert(out@[j] == before[j]);
            }
            assert(pair_strings_view(out@) =~= env_spec(env@, host@, port).take(i + 1));
        }
        i = i + 1;
    }
    proof {
        assert(env_spec(env@, host@, port).take(i as int) =~= env_spec(env@, host@, port));
    }
    out
}

/// Decides the injection the config asks for: `configfile` needs its
/// `[inject.configfile]` table, `env` fills in each variable, `args` needs
/// nothing more, and any other mode is refused.
pub fn plan_injection(cfg: &LauncherConfig, bind_host: &str, port: u16) -> (r: Result<
    Injection,
    String,
>)
    ensures
        cfg.inject.mode@ == "configfile"@ ==> match cfg.inject.configfile {
            None => r matches Err(m) && m@ == missing_configfile_message(),
            Some(ci) => r matches Ok(Injection::ConfigFile { template, set_key, value }) && template@
                == ci.template@ && set_key@ == ci.set_key@ && value@ == subst_spec(
                ci.value@,
                bind_host@,
                port,
                None,
            ),
        },
        cfg.inject.mode@ == "env"@ ==> (r matches Ok(Injection::Env(envs)) && pair_strings_view(
            envs@,
        ) == env_spec(cfg.inject.env@, bind_host@, port)),
        cfg.inject.mode@ == "args"@ ==> (r matches Ok(Injection::Args)),
        cfg.inject.mode@ != "configfile"@ && cfg.inject.mode@ != "env"@ && cfg.inject.mode@
            != "args"@ ==> (r matches Err(m) && m@ == "unknown inject.mode: "@ + cfg.inject.mode@),
{
    proof {
        reveal_strlit("configfile");
        reveal_strlit("env");
        reveal_strlit("args");
        assert("env"@.len() != "configfile"@.len());
        assert("args"@.len() != "configfile"@.len());
        assert("args"@ != "env"@) by {
            assert("args"@[0] != "env"@[0]);
        }
    }
    let mode = &cfg.inject.mode;
    if *mode == owned("configfile") {
        match &cfg.inject.configfile {
            None => Err(owned("inject.mode = \"configfile\" but [inject.configfile] is missing")),
            Some(ci) => Ok(
                Injection::ConfigFile {
                    template: ci.template.clone(),
                    set_key: ci.set_key.clone(),
                    value: subst(ci.value.as_str(), bind_host, port, None),
                },
            ),
        }
    } else if *mode == owned("env") {
        Ok(Injection::Env(fill_env(&cfg.inject.env, bind_host, port)))
    } else if *mode == owned("args") {
        Ok(Injection::Args)
    } else {
        Err(concat2("unknown inject.mode: ", mode.as_str()))
    }
}

/// One argument after injection: `{host}`, `{port}` and `{config}` filled
/// in, `{resource}` filled in only in an argument whose own text names it
/// (never in text that a substituted host brought in), and an argument that
/// stands for a filesystem path (it names `{resource}` or `{config}`)
/// respelled for the platform. URLs, flags and bare values pass through as
/// written.
pub open spec fn arg_spec(
    a: Seq<char>,
    host: Seq<char>,
    port: u16,
    config: Option<Seq<char>>,
    resource: Option<Seq<char>>,
    windows: bool,
) -> Seq<char> {
    let filled = subst_spec(a, host, port, config);
    let out = if text::contains_text(a, "{resource}"@) {
        fill_resource_spec(filled, resource)
    } else {
        filled
    };
    if text::contains_text(a, "{resource}"@) || text::contains_text(a, "{config}"@) {
        native_spec(out, windows)
    } else {
        out
    }
}

/// An argument that names neither `{resource}` nor `{config}` (a URL, a
/// flag, a bare value) is exactly its substitution of `{host}`, `{port}` and
/// `{config}`, whatever the host, the resource directory or the platform.
pub proof fn law_plain_args_are_only_substituted(
    a: Seq<char>,
    host: Seq<char>,
    port: u16,
    config: Option<Seq<char>>,
    resource: Option<Seq<char>>,
    windows: bool,
)
    requires
        !text::contains_text(a, "{resource}"@),
        !text::contains_text(a, "{config}"@),
    ensures
        arg_spec(a, host, port, config, resource, windows) == subst_spec(a, host, port, config),
{
}

pub open spec fn args_spec(
    args: Seq<String>,
    host: Seq<char>,
    port: u16,
    config: Option<Seq<char>>,
    resource: Option<Seq<char>>,
    windows: bool,
) -> Seq<Seq<char>> {
    args.map_values(|a: String| arg_spec(a@, host, port, config, resource, windows))
}

pub open spec fn opt_string_view(o: Option<String>) -> Option<Seq<char>> {
    match o {
        Some(s) => Some(s@),
        None => None,
    }
}

/// Assembles the launch once the injection has been carried out:
/// `rendered_config` is the path of the patched config file, if any; the
/// environment is the config's `env` table filled in when the mode is `env`,
/// and empty otherwise; `{resource}` in an argument stands for `resource_dir`, the
/// bundle's resource directory. The working directory is the configured one, else the
/// writable work directory, so a bundled server can persist its state.
pub fn finish_launch(
    cfg: &LauncherConfig,
    bind_host: &str,
    port: u16,
    work_dir: &str,
    program: String,
    rendered_config: Option<String>,
    resource_dir: Option<&str>,
    windows: bool,
) -> (l: Launch)
    ensures
        l.program == program,
        pair_strings_view(l.envs@) == (if cfg.inject.mode@ == "env"@ {
            env_spec(cfg.inject.env@, bind_host@, port)
        } else {
            Seq::empty()
        }),
        strings_view(l.args@) == args_spec(
            cfg.app.args@,
            bind_host@,
            port,
            opt_string_view(rendered_config),
            opt_view(resource_dir),
            windows,
        ),
        l.cwd matches Some(c) && c@ == (match cfg.app.cwd {
            Some(d) => d@,
            None => work_dir@,
        }),
{
    let mut args: Vec<String> = Vec::new();
    let mut i: usize = 0;
    while i < cfg.app.args.len()
        invariant
            i <= cfg.app.args@.len(),
            strings_view(args@) =~= args_spec(
                cfg.app.args@,
                bind_host@,
                port,
                opt_string_view(rendered_config),
                opt_view(resource_dir),
                windows,
            ).take(i as int),
        decreases cfg.app.args@.len() - i,
    {
        let a = cfg.app.args[i].as_str();
        let names_resource = text::contains_str(a, "{resource}");
        let is_path = names_resource || text::contains_str(a, "{config}");
        let config: Option<&str> = match &rendered_config {
            Some(c) => Some(c.as_str()),
            None => None,
        };
        let filled = subst(a, bind_host, port, config);
        let out = if names_resource {
            fill_resource(filled.as_str(), resource_dir)
        } else {
            filled
        };
        let v = if is_path {
            native_path(out.as_str(), windows)
        } else {
            out
        };
        let ghost before = args@;
        args.push(v);
        proof {
            assert(strings_view(before).len() == i);
            assert(strings_view(args@)[i as int] == v@);
            assert forall|j: int| 0 <= j < i implies strings_view(args@)[j] == strings_view(
                before,
            )[j] by {
                assert(args@[j] == before[j]);
            }
        }
        i = i + 1;
    }
    proof {
        assert(args_spec(cfg.app.args@, bind_host@, port, opt_string_view(rendered_config), opt_view(resource_dir), windows).take(
            i as int,
        ) =~= args_spec(cfg.app.args@, bind_host@, port, opt_string_view(rendered_config), opt_view(resource_dir), windows));
    }
    let cwd = match &cfg.app.cwd {
        Some(d) => d.clone(),
        None => owned(work_dir),
    };
    let envs = if cfg.inject.mode == owned("env") {
        fill_env(&cfg.inject.env, bind_host, port)
    } else {
        Vec::new()
    };
    proof {
        if cfg.inject.mode@ != "env"@ {
            assert(pair_strings_view(envs@) =~= Seq::empty());
        }
    }
    Launch { program, args, envs, cwd: Some(cwd) }
}

// ------------------------------------------------------------------ laws --

/// Choosing an interface from the list binds that interface and shows it:
/// for a name the list holds (other than the "all" entry), both the bind
/// host and the display host are the IPv4 address of the first entry with
/// that name, loopback or not; nothing else in the list matters.
pub proof fn law_chosen_interface_binds_its_own_address(
    l: Seq<InterfaceView>,
    interface: Seq<char>,
    k: int,
)
    requires
        0 <= k < l.len(),
        l[k].name == interface,
        forall|j: int| 0 <= j < k ==> l[j].name != interface,
        interface != "all"@,
    ensures
        resolve_hosts_spec(l, interface) == (l[k].ip, l[k].ip),
{
    assert(exists|i: int| 0 <= i < l.len() && l[i].name == interface);
    let c = choose|i: int|
        0 <= i < l.len() && l[i].name == interface && forall|j: int|
            0 <= j < i ==> l[j].name != interface;
    assert(0 <= c < l.len() && l[c].name == interface && forall|j: int|
        0 <= j < c ==> l[j].name != interface);
    if c < k {
        assert(l[c].name != interface);
    }
    if c > k {
        assert(l[k].name != interface);
    }
    assert(c == k);
}

} // verus!
