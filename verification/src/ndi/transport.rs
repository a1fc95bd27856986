//! NDI endpoints and the choices the NDI input and output tasks make.

use crate::text;
use crate::text::{concat2, contains_str};
use vstd::prelude::*;
use vstd::utf8::*;

verus! {

/// `NDI_LIB_FOURCC('F','L','T','p')`: planar 32-bit float audio, packed
/// little-endian so the bytes read F, L, T, p in memory.
pub const FOURCC_FLTP: u32 = 0x7054_4C46;

/// The environment variable the redistributable installer sets to the
/// directory holding the runtime.
pub const REDIST_FOLDER_VAR: &'static str = "NDI_RUNTIME_DIR_V6";

pub enum Endpoint {
    /// Connect to an NDI source on the network whose name contains this
    /// substring (NDI names look like `"MACHINE (Source Name)"`).
    Receiver { source_name: String },
    /// Advertise a new NDI output with this name.
    Sender { name: String },
}

/// A discovered source, with owned strings.
pub struct Source {
    pub name: String,
    pub url: String,
}

/// The first source whose name contains `wanted`, in discovery order.
pub fn find_source_by_name(sources: &Vec<Source>, wanted: &str) -> (r: Option<usize>)
    ensures
        match r {
            Some(i) => i < sources@.len() && text::contains_text(sources@[i as int].name@, wanted@)
                && forall|j: int|
                0 <= j < i ==> !text::contains_text(#[trigger] sources@[j].name@, wanted@),
            None => forall|j: int|
                0 <= j < sources@.len() ==> !text::contains_text(
                    #[trigger] sources@[j].name@,
                    wanted@,
                ),
        },
{
    let mut i: usize = 0;
    while i < sources.len()
        invariant
            i <= sources@.len(),
            forall|j: int|
                0 <= j < i ==> !text::contains_text(#[trigger] sources@[j].name@, wanted@),
        decreases sources@.len() - i,
    {
        if contains_str(sources[i].name.as_str(), wanted) {
            return Some(i);
        }
        i = i + 1;
    }
    None
}

/// A place to look for the runtime: a directory (none for a bare name, which
/// the platform's loader searches for) and a library file name.
pub type Candidate = (Option<String>, String);

pub open spec fn candidates_view(v: Seq<Candidate>) -> Seq<(Option<Seq<char>>, Seq<char>)> {
    v.map_values(|c: Candidate| (
        match c.0 {
            Some(d) => Some(d@),
            None => None,
        },
        c.1@,
    ))
}

/// Every library name inside `dir`, in order.
pub open spec fn in_dir(dir: Seq<char>, names: Seq<String>) -> Seq<(Option<Seq<char>>, Seq<char>)> {
    names.map_values(|n: String| (Some(dir), n@))
}

/// An environment variable's value counts only when it is set and not empty.
pub open spec fn set_dir(v: Option<Seq<char>>) -> Option<Seq<char>> {
    match v {
        Some(d) => if d.len() > 0 {
            Some(d)
        } else {
            None
        },
        None => None,
    }
}

pub open spec fn maybe_in_dir(dir: Option<Seq<char>>, names: Seq<String>) -> Seq<
    (Option<Seq<char>>, Seq<char>),
> {
    match dir {
        Some(d) => in_dir(d, names),
        None => Seq::empty(),
    }
}

pub open spec fn in_dirs(dirs: Seq<String>, names: Seq<String>) -> Seq<(Option<Seq<char>>, Seq<char>)>
    decreases dirs.len(),
{
    if dirs.len() == 0 {
        Seq::empty()
    } else {
        in_dirs(dirs.drop_last(), names) + in_dir(dirs.last()@, names)
    }
}

/// Where the runtime is looked for, in order: the current and then the
/// previous redistributable's directory (each when its variable is set and
/// not empty), beside the executable (so an installer can ship the library
/// in the app's own folder), the bare names for the loader's own search
/// path, and finally the platform's usual install directories.
pub open spec fn candidates_spec(
    v6: Option<Seq<char>>,
    v5: Option<Seq<char>>,
    exe_dir: Option<Seq<char>>,
    names: Seq<String>,
    extra_dirs: Seq<String>,
) -> Seq<(Option<Seq<char>>, Seq<char>)> {
    maybe_in_dir(set_dir(v6), names) + maybe_in_dir(set_dir(v5), names) + maybe_in_dir(exe_dir, names)
        + names.map_values(|n: String| (None::<Seq<char>>, n@)) + in_dirs(extra_dirs, names)
}

fn push_in_dir(out: &mut Vec<Candidate>, dir: Option<&str>, names: &Vec<String>)
    ensures
        candidates_view(final(out)@) == candidates_view(old(out)@) + match dir {
            Some(d) => in_dir(d@, names@),
            None => names@.map_values(|n: String| (None::<Seq<char>>, n@)),
        },
{
    let ghost start = out@;
    let ghost tail = match dir {
        Some(d) => in_dir(d@, names@),
        None => names@.map_values(|n: String| (None::<Seq<char>>, n@)),
    };
    let mut i: usize = 0;
    while i < names.len()
        invariant
            i <= names@.len(),
            tail == match dir {
                Some(d) => in_dir(d@, names@),
                None => names@.map_values(|n: String| (None::<Seq<char>>, n@)),
            },
            candidates_view(out@) =~= candidates_view(start) + tail.take(i as int),
        decreases names@.len() - i,
    {
        let d: Option<String> = match dir {
            Some(d) => Some(text::owned(d)),
            None => None,
        };
        let ghost before = out@;
        out.push((d, names[i].clone()));
        proof {
            assert(candidates_view(out@) =~= candidates_view(before).push(tail[i as int]));
            assert(tail.take(i + 1) =~= tail.take(i as int).push(tail[i as int]));
        }
        i = i + 1;
    }
    proof {
        assert(tail.take(i as int) =~= tail);
    }
}

/// The candidate locations of the runtime library, in the order they are
/// tried: `v6` and `v5` are the redistributables' environment variables,
/// `exe_dir` the executable's directory when known.
pub fn library_candidates(
    v6: Option<&str>,
    v5: Option<&str>,
    exe_dir: Option<&str>,
    names: &Vec<String>,
    extra_dirs: &Vec<String>,
) -> (out: Vec<Candidate>)
    ensures
        candidates_view(out@) == candidates_spec(
            opt_str_view(v6),
            opt_str_view(v5),
            opt_str_view(exe_dir),
            names@,
            extra_dirs@,
        ),
{
    let mut out: Vec<Candidate> = Vec::new();
    let ghost n = names@;
    if let Some(d) = v6 {
        if d.unicode_len() > 0 {
            push_in_dir(&mut out, Some(d), names);
        }
    }
    if let Some(d) = v5 {
        if d.unicode_len() > 0 {
            push_in_dir(&mut out, Some(d), names);
        }
    }
    if let Some(d) = exe_dir {
        push_in_dir(&mut out, Some(d), names);
    }
    push_in_dir(&mut out, None, names);
    let ghost head = candidates_view(out@);
    proof {
        assert(head =~= maybe_in_dir(set_dir(opt_str_view(v6)), n) + maybe_in_dir(
            set_dir(opt_str_view(v5)),
            n,
        ) + maybe_in_dir(opt_str_view(exe_dir), n) + n.map_values(
            |x: String| (None::<Seq<char>>, x@),
        ));
    }
    let mut k: usize = 0;
    while k < extra_dirs.len()
        invariant
            k <= extra_dirs@.len(),
            n == names@,
            candidates_view(out@) =~= head + in_dirs(extra_dirs@.take(k as int), n),
        decreases extra_dirs@.len() - k,
    {
        push_in_dir(&mut out, Some(extra_dirs[k].as_str()), names);
        proof {
            let t = extra_dirs@.take(k + 1);
            assert(t.drop_last() =~= extra_dirs@.take(k as int));
            assert(t.last() == extra_dirs@[k as int]);
        }
        k = k + 1;
    }
    proof {
        assert(extra_dirs@.take(k as int) =~= extra_dirs@);
    }
    out
}

pub open spec fn opt_str_view(o: Option<&str>) -> Option<Seq<char>> {
    match o {
        Some(s) => Some(s@),
        None => None,
    }
}

/// Bytes in a captured video frame: `yres` rows of `line_stride_in_bytes`.
/// Compressed FourCCs reuse the stride field as a data size, so a negative
/// value counts as zero rather than as a huge length.
pub fn video_payload_len(line_stride_in_bytes: i32, yres: i32) -> (n: u64)
    ensures
        n == (if line_stride_in_bytes < 0 {
            0
        } else {
            line_stride_in_bytes as int
        }) * (if yres < 0 {
            0
        } else {
            yres as int
        }),
{
    let s: u64 = if line_stride_in_bytes < 0 {
        0
    } else {
        line_stride_in_bytes as u64
    };
    let y: u64 = if yres < 0 {
        0
    } else {
        yres as u64
    };
    assert(s * y <= 0x7fff_ffff * 0x7fff_ffff) by (nonlinear_arith)
        requires
            s <= 0x7fff_ffff,
            y <= 0x7fff_ffff,
    ;
    s * y
}

/// The plane stride of an outgoing audio frame: our own buffer is tightly
/// packed, one plane per channel, so the stride is exactly one plane of
/// 4-byte samples.
pub fn audio_plane_stride(no_samples: i32) -> (stride: i32)
    requires
        no_samples <= i32::MAX / 4,
    ensures
        stride == 4 * (if no_samples < 0 {
            0
        } else {
            no_samples as int
        }),
{
    if no_samples < 0 {
        0
    } else {
        no_samples * 4
    }
}

pub enum SysError {
    NotFound { tried: String },
    TooOld { path: String, symbol: String },
    Init { path: String },
    CreateFailed { path: String, what: String },
    BadString(&'static str),
}

/// Text as the runtime's C API takes it: its UTF-8 bytes and a closing NUL.
/// Text holding a NUL character is refused, as `BadString(what)`, rather
/// than silently cut short at the NUL.
pub fn c_text(s: &str, what: &'static str) -> (r: Result<Vec<u8>, SysError>)
    ensures
        s@.contains('\0') ==> (r matches Err(SysError::BadString(w)) && w == what),
        !s@.contains('\0') ==> (r matches Ok(b) && b@ == encode_utf8(s@).push(0u8)),
{
    let cs = text::chars_of(s);
    let mut i: usize = 0;
    while i < cs.len()
        invariant
            cs@ == s@,
            i <= cs@.len(),
            forall|j: int| 0 <= j < i ==> cs@[j] != '\0',
        decreases cs@.len() - i,
    {
        if cs[i] == '\0' {
            return Err(SysError::BadString(what));
        }
        i = i + 1;
    }
    let mut out: Vec<u8> = Vec::new();
    out.extend_from_slice(s.as_bytes());
    out.push(0u8);
    proof {
        assert(!s@.contains('\0'));
    }
    Ok(out)
}

impl SysError {
    pub open spec fn spec_message(&self, redist_url: Seq<char>) -> Seq<char> {
        match self {
            SysError::NotFound { tried } => "NDI runtime not found (tried "@ + tried@
                + "). Install it from "@ + redist_url + ", or set "@ + REDIST_FOLDER_VAR@
                + " to the directory containing it."@,
            SysError::TooOld { path, symbol } => "NDI runtime at "@ + path@ + " is missing "@
                + symbol@ + " \u{2014} it is too old (NDI 5 or newer is needed)"@,
            SysError::Init { path } => "the NDI runtime at "@ + path@
                + " refused to initialise \u{2014} this CPU is not supported by it"@,
            SysError::CreateFailed { path, what } => "the NDI runtime at "@ + path@
                + " would not create "@ + what@,
            SysError::BadString(what) => (*what)@ + " contains an interior NUL byte"@,
        }
    }

    /// The error's text; `redist_url` is the platform's download page for
    /// the runtime.
    pub fn message(&self, redist_url: &str) -> (m: String)
        ensures
            m@ == self.spec_message(redist_url@),
    {
        match self {
            SysError::NotFound { tried } => {
                let mut m = String::from_str("NDI runtime not found (tried ");
                m.append(tried.as_str());
                m.append("). Install it from ");
                m.append(redist_url);
                m.append(", or set ");
                m.append(REDIST_FOLDER_VAR);
                m.append(" to the directory containing it.");
                m
            },
            SysError::TooOld { path, symbol } => {
                let mut m = String::from_str("NDI runtime at ");
                m.append(path.as_str());
                m.append(" is missing ");
                m.append(symbol.as_str());
                m.append(" \u{2014} it is too old (NDI 5 or newer is needed)");
                m
            },
            SysError::Init { path } => {
                let mut m = String::from_str("the NDI runtime at ");
                m.append(path.as_str());
                m.append(" refused to initialise \u{2014} this CPU is not supported by it");
                m
            },
            SysError::CreateFailed { path, what } => {
                let mut m = String::from_str("the NDI runtime at ");
                m.append(path.as_str());
                m.append(" would not create ");
                m.append(what.as_str());
                m
            },
            SysError::BadString(what) => concat2(what, " contains an interior NUL byte"),
        }
    }
}

} // verus!
