//! Discovery of the local terminal-multiplexer session.
//!
//! The ambient state discovery reads - an environment variable with the
//! session name, the output of the multiplexer's version command, the
//! runtime socket directory and whether the session socket is present -
//! is passed in as an explicit `Environment` value, so resolution itself
//! is a function. The guest derives its local rendezvous socket from the
//! remote session name with a `-remote` suffix.

use vstd::prelude::*;
use vstd::string::StrSliceExecFns;
use vstd::string::StringExecFns;

verus! {

/// Identity of the multiplexer session being shared.
#[derive(Debug, Clone)]
pub struct ZellijSessionInfo {
    pub name: String,
    pub version: String,
    pub path: String,
}

/// The ambient state session discovery reads, as an explicit value.
pub struct Environment {
    /// The session name from the multiplexer's environment variable, if set.
    pub session_name: Option<String>,
    /// What the multiplexer's version command printed, if it ran at all.
    pub version_output: Option<String>,
    /// The runtime directory that holds the session sockets.
    pub sock_dir: String,
    /// Whether a socket for the named session is present in that directory.
    pub session_socket_exists: bool,
}

/// Why session discovery failed, before any network activity.
#[derive(Clone, Copy, Debug, PartialEq, Eq, Structural)]
pub enum ConfigError {
    /// No session name in the environment: not inside an active session.
    NoActiveSession,
    /// The multiplexer's version command did not run.
    VersionUnavailable,
    /// The named session has no socket in the runtime directory.
    SessionSocketMissing,
}

/// The word the version command prefixes to its version number.
pub open spec fn version_tag() -> Seq<char> {
    seq!['z', 'e', 'l', 'l', 'i', 'j']
}

/// Every occurrence of the version tag removed, scanning left to right.
pub open spec fn strip_tag(s: Seq<char>) -> Seq<char>
    decreases s.len(),
{
    if s.len() == 0 {
        Seq::empty()
    } else if s.len() >= 6 && s.take(6) == version_tag() {
        strip_tag(s.skip(6))
    } else {
        seq![s[0]] + strip_tag(s.skip(1))
    }
}

/// The Unicode White_Space set: exactly the characters that trimming
/// removes from the ends of the version command's output.
pub open spec fn is_space_char(c: char) -> bool {
    let u = c as u32;
    (0x09 <= u && u <= 0x0d) || u == 0x20 || u == 0x85 || u == 0xa0 || u == 0x1680 || (0x2000 <= u
        && u <= 0x200a) || u == 0x2028 || u == 0x2029 || u == 0x202f || u == 0x205f || u == 0x3000
}

pub open spec fn trim_front(s: Seq<char>) -> Seq<char>
    decreases s.len(),
{
    if s.len() > 0 && is_space_char(s[0]) {
        trim_front(s.skip(1))
    } else {
        s
    }
}

pub open spec fn trim_back(s: Seq<char>) -> Seq<char>
    decreases s.len(),
{
    if s.len() > 0 && is_space_char(s[s.len() - 1]) {
        trim_back(s.take(s.len() - 1))
    } else {
        s
    }
}

/// ASCII whitespace removed from both ends.
pub open spec fn spec_trim(s: Seq<char>) -> Seq<char> {
    trim_back(trim_front(s))
}

/// What the version command's output boils down to: the tag removed and
/// the remainder trimmed.
pub open spec fn spec_parse_version(s: Seq<char>) -> Seq<char> {
    spec_trim(strip_tag(s))
}

fn is_space(c: char) -> (r: bool)
    ensures
        r == is_space_char(c),
{
    let u = c as u32;
    (0x09 <= u && u <= 0x0d) || u == 0x20 || u == 0x85 || u == 0xa0 || u == 0x1680 || (0x2000 <= u
        && u <= 0x200a) || u == 0x2028 || u == 0x2029 || u == 0x202f || u == 0x205f || u == 0x3000
}

/// True when the version tag stands at character position `i` of `s`.
fn tag_at(s: &str, i: usize, n: usize) -> (r: bool)
    requires
        n == s@.len(),
        i <= n,
    ensures
        r <==> (s@.len() - i >= 6 && s@.skip(i as int).take(6) == version_tag()),
{
    if n - i < 6 {
        proof {
            assert(s@.len() - i < 6);
        }
        return false;
    }
    let r = s.get_char(i) == 'z' && s.get_char(i + 1) == 'e' && s.get_char(i + 2) == 'l'
        && s.get_char(i + 3) == 'l' && s.get_char(i + 4) == 'i' && s.get_char(i + 5) == 'j';
    proof {
        let t = s@.skip(i as int).take(6);
        assert(t =~= seq![
            s@[i as int],
            s@[i + 1],
            s@[i + 2],
            s@[i + 3],
            s@[i + 4],
            s@[i + 5],
        ]);
        if r {
            assert(t =~= version_tag());
        } else {
            assert(t != version_tag());
        }
    }
    r
}

/// Remove every occurrence of the version tag, as `strip_tag` says.
pub fn strip_version_tag(s: &str) -> (r: String)
    ensures
        r@ == strip_tag(s@),
{
    let n = s.unicode_len();
    let mut out = String::new();
    let mut i: usize = 0;
    proof {
        assert(s@.skip(0) =~= s@);
        assert(out@ + strip_tag(s@) =~= strip_tag(s@));
    }
    while i < n
        invariant
            n == s@.len(),
            i <= n,
            out@ + strip_tag(s@.skip(i as int)) == strip_tag(s@),
        decreases n - i,
    {
        if tag_at(s, i, n) {
            proof {
                assert(s@.skip(i as int).skip(6) =~= s@.skip(i + 6));
            }
            i = i + 6;
        } else {
            let piece = s.substring_char(i, i + 1);
            out.append(piece);
            proof {
                assert(seq![s@.skip(i as int)[0]] =~= s@.subrange(i as int, i + 1));
                assert(s@.skip(i as int).skip(1) =~= s@.skip(i + 1));
                assert(out@ + strip_tag(s@.skip(i + 1)) =~= strip_tag(s@));
            }
            i = i + 1;
        }
    }
    proof {
        assert(s@.skip(n as int) =~= Seq::<char>::empty());
        assert(out@ =~= strip_tag(s@));
    }
    out
}

/// Remove ASCII whitespace from both ends, as `spec_trim` says.
pub fn trim_spaces(s: &str) -> (r: String)
    ensures
        r@ == spec_trim(s@),
{
    let n = s.unicode_len();
    let mut a: usize = 0;
    proof {
        assert(s@.skip(0) =~= s@);
    }
    while a < n && is_space(s.get_char(a))
        invariant
            n == s@.len(),
            a <= n,
            trim_front(s@.skip(a as int)) == trim_front(s@),
        decreases n - a,
    {
        proof {
            assert(s@.skip(a as int).skip(1) =~= s@.skip(a + 1));
        }
        a = a + 1;
    }
    proof {
        if a == n {
            assert(s@.skip(a as int) =~= Seq::<char>::empty());
        }
        assert(trim_front(s@) == s@.skip(a as int));
    }
    let mut b: usize = n;
    proof {
        assert(s@.skip(a as int).take(n - a) =~= s@.skip(a as int));
    }
    while b > a && is_space(s.get_char(b - 1))
        invariant
            n == s@.len(),
            a <= b <= n,
            trim_front(s@) == s@.skip(a as int),
            trim_back(s@.skip(a as int).take(b - a)) == trim_back(s@.skip(a as int)),
        decreases b,
    {
        proof {
            let u = s@.skip(a as int).take(b - a);
            assert(u[u.len() - 1] == s@[b - 1]);
            assert(u.take(u.len() - 1) =~= s@.skip(a as int).take(b - 1 - a));
        }
        b = b - 1;
    }
    proof {
        let u = s@.skip(a as int).take(b - a);
        if b == a {
            assert(u =~= Seq::<char>::empty());
        }
        assert(trim_back(u) == u);
    }
    let piece = s.substring_char(a, b);
    proof {
        assert(piece@ =~= s@.skip(a as int).take(b - a));
    }
    String::from_str(piece)
}

/// Parse the version command's output: remove the tag, trim the rest.
pub fn parse_version(output: &str) -> (r: String)
    ensures
        r@ == spec_parse_version(output@),
{
    let stripped = strip_version_tag(output);
    trim_spaces(stripped.as_str())
}

/// `dir`/`name`, with the platform's path separator.
pub fn join_path(dir: &str, name: &str) -> (r: String)
    ensures
        r@ == dir@ + "/"@ + name@,
{
    let r = String::from_str(dir).concat("/").concat(name);
    proof {
        assert(r@ =~= dir@ + "/"@ + name@);
    }
    r
}

/// The guest's local rendezvous socket is the remote session name with a
/// `-remote` suffix.
pub fn remote_session_name(name: &str) -> (r: String)
    ensures
        r@ == name@ + "-remote"@,
{
    String::from_str(name).concat("-remote")
}

/// Resolve the session to share from the given environment: its name from
/// the environment variable, its version parsed from the version
/// command's output, and its socket path under the runtime directory.
/// Fails fast, in this order, when the name is missing, the version
/// command did not run, or the session socket is absent.
pub fn get_current_session(env: &Environment) -> (r: Result<ZellijSessionInfo, ConfigError>)
    ensures
        (r matches Err(e) && e is NoActiveSession) <==> env.session_name is None,
        (r matches Err(e) && e is VersionUnavailable) <==> (env.session_name is Some
            && env.version_output is None),
        (r matches Err(e) && e is SessionSocketMissing) <==> (env.session_name is Some
            && env.version_output is Some && !env.session_socket_exists),
        r is Ok <==> (env.session_name is Some && env.version_output is Some
            && env.session_socket_exists),
        r matches Ok(info) ==> (env.session_name matches Some(nm) && env.version_output matches Some(
            vo,
        ) && info.name@ == nm@ && info.version@ == spec_parse_version(vo@) && info.path@
            == env.sock_dir@ + "/"@ + nm@),
{
    let name = match &env.session_name {
        None => { return Err(ConfigError::NoActiveSession) },
        Some(nm) => nm,
    };
    let output = match &env.version_output {
        None => { return Err(ConfigError::VersionUnavailable) },
        Some(vo) => vo,
    };
    if !env.session_socket_exists {
        return Err(ConfigError::SessionSocketMissing);
    }
    let version = parse_version(output.as_str());
    let path = join_path(env.sock_dir.as_str(), name.as_str());
    Ok(ZellijSessionInfo { name: name.clone(), version, path })
}

} // verus!
