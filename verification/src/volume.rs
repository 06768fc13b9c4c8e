//! Resolution of the volumes of a service into mount arguments.
//!
//! A volume is written `host:container`, with optional `:options`. Where
//! the host part is a named volume of the configuration, the mount comes
//! from a directory that the engine keeps under the user's home directory.
//! Otherwise the host part is a path on the host, which has to exist.

use crate::config::Volume;
use crate::error::{ComposeError, Failure};
use crate::name_map::NameMap;
use crate::text::{chars_of, has_char, lemma_split_len, split, split_text, texts};
use vstd::prelude::*;

verus! {

/// Where the host side of a mount comes from.
#[derive(Debug, Clone, Copy, PartialEq, Eq, Structural)]
pub enum MountKind {
    /// A directory that the engine keeps for a named volume.
    Named,
    /// A path on the host.
    Bind,
}

/// A volume of a service, resolved but for the state of the file system.
#[derive(Debug, Clone, PartialEq, Eq)]
pub struct MountPlan {
    /// Where the host side comes from.
    pub kind: MountKind,
    /// The host part as the configuration has it.
    pub declared: String,
    /// The path on the host that is mounted.
    pub host_path: String,
    /// The path inside the container.
    pub container_path: String,
    /// The options with their leading `:`, or nothing.
    pub options: String,
}

/// `rel` resolved against the directory `base`: a `rel` that starts at the
/// root stands alone, otherwise the two are joined by exactly one `/`.
pub open spec fn join_path(base: Seq<char>, rel: Seq<char>) -> Seq<char> {
    if rel.len() > 0 && rel[0] == '/' {
        rel
    } else if base.len() == 0 || base.last() == '/' {
        base + rel
    } else {
        base + seq!['/'] + rel
    }
}

/// Whether `volume` has no host part.
pub open spec fn is_anonymous(volume: Seq<char>) -> bool {
    !volume.contains(':')
}

/// The part of `volume` before its first `:`.
pub open spec fn host_part(volume: Seq<char>) -> Seq<char> {
    split(volume, ':')[0]
}

/// The part of `volume` between its first and its second `:`.
pub open spec fn container_part(volume: Seq<char>) -> Seq<char> {
    split(volume, ':')[1]
}

/// The third part of `volume` behind a `:` of its own; nothing where there
/// is no third part.
pub open spec fn options_suffix(volume: Seq<char>) -> Seq<char> {
    let parts = split(volume, ':');
    if parts.len() > 2 {
        seq![':'] + parts[2]
    } else {
        Seq::empty()
    }
}

/// Whether `host` begins with `./`.
pub open spec fn begins_here(host: Seq<char>) -> bool {
    host.len() >= 2 && host[0] == '.' && host[1] == '/'
}

/// The path that a bind mount of `host` stands for: below `cwd` where
/// `host` begins with `./` or holds no `/`, and `host` itself otherwise.
pub open spec fn bind_source(host: Seq<char>, cwd: Seq<char>) -> Seq<char> {
    if begins_here(host) {
        join_path(cwd, host.skip(2))
    } else if !host.contains('/') {
        join_path(cwd, host)
    } else {
        host
    }
}

/// The directory kept for the named volume `name` of the user whose home
/// directory is `home`.
pub open spec fn named_volume_path(home: Seq<char>, name: Seq<char>) -> Seq<char> {
    join_path(join_path(join_path(home, ".container-compose"@), "volumes"@), name)
}

/// The mount argument of `volume` with `source` as its host side.
pub open spec fn mount_argument(source: Seq<char>, volume: Seq<char>) -> Seq<char> {
    source + seq![':'] + container_part(volume) + options_suffix(volume)
}

/// The text of an optional string.
pub open spec fn optional_text(s: Option<&str>) -> Option<Seq<char>> {
    match s {
        Some(t) => Some(t@),
        None => None,
    }
}

/// What `volume` resolves to, with `named` the named volumes of the
/// configuration, `cwd` the current directory and `home` the home
/// directory, where `source_exists` says whether the file system holds the
/// path that a bind mount stands for.
pub open spec fn resolve_volume(
    volume: Seq<char>,
    named: Seq<Seq<char>>,
    cwd: Seq<char>,
    home: Option<Seq<char>>,
    source_exists: bool,
) -> Result<Seq<char>, Failure> {
    let host = host_part(volume);
    if is_anonymous(volume) {
        Err(Failure::AnonymousVolumeUnsupported { volume })
    } else if named.contains(host) {
        match home {
            Some(h) => Ok(mount_argument(named_volume_path(h, host), volume)),
            None => Err(Failure::HomeDirectoryUnresolvable),
        }
    } else if source_exists {
        Ok(mount_argument(bind_source(host, cwd), volume))
    } else {
        Err(Failure::VolumeSourceNotFound { source: host, resolved: bind_source(host, cwd) })
    }
}

/// The text of a result.
pub open spec fn resolution_text(r: Result<String, ComposeError>) -> Result<Seq<char>, Failure> {
    match r {
        Ok(s) => Ok(s@),
        Err(e) => Err(e@),
    }
}

impl MountPlan {
    /// The mount argument that the plan stands for.
    pub open spec fn argument_text(&self) -> Seq<char> {
        self.host_path@ + seq![':'] + self.container_path@ + self.options@
    }

    /// What the plan comes to where `source_exists` says whether the file
    /// system holds its host path. Only a bind mount asks for that.
    pub open spec fn outcome(&self, source_exists: bool) -> Result<Seq<char>, Failure> {
        if self.kind is Named || source_exists {
            Ok(self.argument_text())
        } else {
            Err(
                Failure::VolumeSourceNotFound {
                    source: self.declared@,
                    resolved: self.host_path@,
                },
            )
        }
    }

    /// Whether the file system has to hold the host path.
    pub fn needs_source(&self) -> (b: bool)
        ensures
            b == (self.kind is Bind),
    {
        match self.kind {
            MountKind::Bind => true,
            MountKind::Named => false,
        }
    }

    /// Whether the host path was made from the current directory.
    pub fn uses_cwd(&self) -> (b: bool)
        ensures
            b == (self.kind is Bind && (begins_here(self.declared@) || !self.declared@.contains(
                '/',
            ))),
    {
        self.needs_source() && (begins_with_here(self.declared.as_str()) || !has_char(
            self.declared.as_str(),
            '/',
        ))
    }

    /// Whether the host path of a bind mount holds a space, which the
    /// runtime may not take well.
    pub fn has_spaces(&self) -> (b: bool)
        ensures
            b == (self.kind is Bind && self.host_path@.contains(' ')),
    {
        self.needs_source() && has_char(self.host_path.as_str(), ' ')
    }

    /// The mount argument, or the failure to find the source of a bind
    /// mount. `source_exists` says whether the file system holds the host
    /// path; for a named volume it is not looked at.
    pub fn argument(&self, source_exists: bool) -> (r: Result<String, ComposeError>)
        ensures
            resolution_text(r) == self.outcome(source_exists),
    {
        if !self.needs_source() || source_exists {
            proof {
                reveal_strlit(":");
                assert(":"@ =~= seq![':']);
            }
            let mut out = self.host_path.clone();
            out.append(":");
            out.append(self.container_path.as_str());
            out.append(self.options.as_str());
            Ok(out)
        } else {
            Err(
                ComposeError::VolumeSourceNotFound {
                    source: self.declared.clone(),
                    resolved: self.host_path.clone(),
                },
            )
        }
    }
}

/// `rel` resolved against the directory `base`.
pub fn join_paths(base: &str, rel: &str) -> (r: String)
    ensures
        r@ == join_path(base@, rel@),
{
    let b = chars_of(base);
    let t = chars_of(rel);
    if t.len() > 0 && t[0] == '/' {
        rel.to_owned()
    } else if b.len() == 0 || b[b.len() - 1] == '/' {
        let mut out = base.to_owned();
        out.append(rel);
        out
    } else {
        proof {
            reveal_strlit("/");
            assert("/"@ =~= seq!['/']);
        }
        let mut out = base.to_owned();
        out.append("/");
        out.append(rel);
        out
    }
}

/// Tests whether `host` begins with `./`.
pub fn begins_with_here(host: &str) -> (b: bool)
    ensures
        b == begins_here(host@),
{
    let chars = chars_of(host);
    chars.len() >= 2 && chars[0] == '.' && chars[1] == '/'
}

/// The path that a bind mount of `host` stands for.
pub fn resolve_bind_source(host: &str, cwd: &str) -> (r: String)
    ensures
        r@ == bind_source(host@, cwd@),
{
    if begins_with_here(host) {
        let n = host.unicode_len();
        let rest = host.substring_char(2, n);
        join_paths(cwd, rest)
    } else if !has_char(host, '/') {
        join_paths(cwd, host)
    } else {
        host.to_owned()
    }
}

/// The directory kept for the named volume `name`; a failure where no
/// home directory is known.
pub fn named_volume_directory(home: Option<&str>, name: &str) -> (r: Result<String, ComposeError>)
    ensures
        resolution_text(r) == (match home {
            Some(h) => Ok(named_volume_path(h@, name@)),
            None => Err(Failure::HomeDirectoryUnresolvable),
        }),
{
    match home {
        Some(h) => {
            let base = join_paths(h, ".container-compose");
            let all = join_paths(base.as_str(), "volumes");
            Ok(join_paths(all.as_str(), name))
        },
        None => Err(ComposeError::HomeDirectoryUnresolvable),
    }
}

/// Resolves `volume` as far as it goes without the file system, with
/// `named` the named volumes of the configuration.
///
/// It fails for a volume without `:`, and for a named volume where no home
/// directory is known. Otherwise the plan that comes back resolves as
/// `resolve_volume` says, whatever the file system holds.
pub fn plan_mount(volume: &str, named: &NameMap<Volume>, cwd: &str, home: Option<&str>) -> (r:
    Result<MountPlan, ComposeError>)
    ensures
        r is Ok <==> !is_anonymous(volume@) && (named.contains(host_part(volume@)) ==> home
            is Some),
        match r {
            Ok(plan) => {
                &&& plan.kind is Named <==> named.contains(host_part(volume@))
                &&& plan.declared@ == host_part(volume@)
                &&& plan.host_path@ == (if named.contains(host_part(volume@)) {
                    named_volume_path(home.unwrap()@, host_part(volume@))
                } else {
                    bind_source(host_part(volume@), cwd@)
                })
                &&& plan.container_path@ == container_part(volume@)
                &&& plan.options@ == options_suffix(volume@)
                &&& forall|present: bool|
                    #[trigger] plan.outcome(present) == resolve_volume(
                        volume@,
                        named.names(),
                        cwd@,
                        optional_text(home),
                        present,
                    )
            },
            Err(e) => forall|present: bool|
                #[trigger] resolve_volume(
                    volume@,
                    named.names(),
                    cwd@,
                    optional_text(home),
                    present,
                ) == Err::<Seq<char>, Failure>(e@),
        },
{
    let mut parts = split_text(volume, ':');
    proof {
        lemma_split_len(volume@, ':');
        assert(texts(parts@).len() == parts@.len());
    }
    if parts.len() < 2 {
        return Err(ComposeError::AnonymousVolumeUnsupported { volume: volume.to_owned() });
    }
    let ghost pieces = texts(parts@);
    assert(pieces[0] == parts@[0]@ && pieces[1] == parts@[1]@);
    let options = if parts.len() > 2 {
        assert(pieces[2] == parts@[2]@);
        proof {
            reveal_strlit(":");
            assert(":"@ =~= seq![':']);
        }
        let mut o = ":".to_owned();
        o.append(parts[2].as_str());
        o
    } else {
        String::new()
    };
    let container_path = parts[1].clone();
    let declared = parts[0].clone();
    if named.contains_key(declared.as_str()) {
        match named_volume_directory(home, declared.as_str()) {
            Ok(host_path) => Ok(
                MountPlan { kind: MountKind::Named, declared, host_path, container_path, options },
            ),
            Err(e) => Err(e),
        }
    } else {
        let host_path = resolve_bind_source(declared.as_str(), cwd);
        Ok(MountPlan { kind: MountKind::Bind, declared, host_path, container_path, options })
    }
}

/// The directories kept for the named volumes of `named`, in the order of
/// their declaration; a failure where there are named volumes and no home
/// directory is known.
pub fn volume_directories(named: &NameMap<Volume>, home: Option<&str>) -> (r: Result<
    Vec<String>,
    ComposeError,
>)
    ensures
        r is Ok <==> named.names().len() == 0 || home is Some,
        r matches Err(e) ==> e@ == Failure::HomeDirectoryUnresolvable,
        r matches Ok(dirs) ==> {
            &&& dirs@.len() == named.names().len()
            &&& forall|i: int|
                0 <= i < dirs@.len() ==> (#[trigger] dirs@[i])@ == named_volume_path(
                    home.unwrap()@,
                    named.names()[i],
                )
        },
{
    let n = named.len();
    let mut dirs: Vec<String> = Vec::new();
    let mut i: usize = 0;
    while i < n
        invariant
            n == named.names().len(),
            i <= n,
            dirs@.len() == i,
            i > 0 ==> home is Some,
            forall|j: int|
                0 <= j < i ==> (#[trigger] dirs@[j])@ == named_volume_path(
                    home.unwrap()@,
                    named.names()[j],
                ),
        decreases n - i,
    {
        match named_volume_directory(home, named.name_at(i).as_str()) {
            Ok(dir) => dirs.push(dir),
            Err(e) => {
                return Err(e);
            },
        }
        i += 1;
    }
    Ok(dirs)
}

/// The home directory: the first of the two that is known.
pub fn home_directory(home: Option<String>, user_profile: Option<String>) -> (r: Option<String>)
    ensures
        r == (if home is Some {
            home
        } else {
            user_profile
        }),
{
    match home {
        Some(h) => Some(h),
        None => user_profile,
    }
}

/// A volume without `:` does not resolve, whatever the other inputs are.
pub proof fn lemma_anonymous_volume_fails(
    volume: Seq<char>,
    named: Seq<Seq<char>>,
    cwd: Seq<char>,
    home: Option<Seq<char>>,
    source_exists: bool,
)
    requires
        !volume.contains(':'),
    ensures
        resolve_volume(volume, named, cwd, home, source_exists) == Err::<Seq<char>, Failure>(
            Failure::AnonymousVolumeUnsupported { volume },
        ),
{
}

/// A volume whose host part is a named volume resolves without regard to
/// the file system: to the directory kept for it where the home directory
/// is known, and to the same failure where it is not.
pub proof fn lemma_named_volume_ignores_file_system(
    volume: Seq<char>,
    named: Seq<Seq<char>>,
    cwd: Seq<char>,
    home: Option<Seq<char>>,
)
    requires
        volume.contains(':'),
        named.contains(host_part(volume)),
    ensures
        resolve_volume(volume, named, cwd, home, true) == resolve_volume(
            volume,
            named,
            cwd,
            home,
            false,
        ),
        home matches Some(h) ==> resolve_volume(volume, named, cwd, home, false) == Ok::<
            Seq<char>,
            Failure,
        >(mount_argument(named_volume_path(h, host_part(volume)), volume)),
{
}

/// The mount argument depends on the volume, the named volumes, the current
/// directory and the home directory alone: the file system decides whether
/// a bind mount resolves, never what it resolves to.
pub proof fn lemma_mount_argument_determined(
    volume: Seq<char>,
    named: Seq<Seq<char>>,
    cwd: Seq<char>,
    home: Option<Seq<char>>,
    first: bool,
    second: bool,
)
    requires
        resolve_volume(volume, named, cwd, home, first) is Ok,
        resolve_volume(volume, named, cwd, home, second) is Ok,
    ensures
        resolve_volume(volume, named, cwd, home, first) == resolve_volume(
            volume,
            named,
            cwd,
            home,
            second,
        ),
{
}

} // verus!
