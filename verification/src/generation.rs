//! Generations: immutable, resolved, bootable system states.
//!
//! A generation combines the version of the profile that produced it
//! with that profile's loaded boot specification. It is produced once,
//! either by resolving a profile or by specialising an existing
//! generation under a name, and is never mutated afterwards.

use vstd::prelude::*;

use crate::bootspec::Bootspec;
use crate::bootspec::json_value_of;
use crate::decimal::spec_digits;
use crate::decimal::u64_to_decimal;
use crate::profile::Profile;

verus! {

/// Error resolving a generation from a profile. Both kinds carry the
/// path of the bootspec file whose read or parse failed.
#[derive(Debug)]
pub enum BootspecError {
    /// The bootspec file could not be read (missing, unreadable,
    /// permission denied).
    Io { path: String, message: String },
    /// The bootspec file was read, but its bytes do not form a
    /// bootspec document; the message carries the parse diagnostics.
    Format { path: String, message: String },
}

/// Where a profile's bootspec file lives, relative to the profile
/// path.
pub open spec fn bootspec_file_rel() -> Seq<char> {
    "bootspec/boot.v1.json"@
}

/// `base` joined with the relative path `rel`: a separator is added
/// unless `base` is empty or already ends with one.
pub open spec fn spec_join(base: Seq<char>, rel: Seq<char>) -> Seq<char> {
    if base.len() == 0 {
        rel
    } else if base.last() == '/' {
        base + rel
    } else {
        base + seq!['/'] + rel
    }
}

/// The location of a profile's bootspec file: the profile path joined
/// with `bootspec/boot.v1.json`.
pub open spec fn spec_bootspec_path(profile: &Profile) -> Seq<char> {
    spec_join(profile.path@, bootspec_file_rel())
}

/// A generation is the system state a profile points to. It carries
/// almost everything needed to install the generation onto boot
/// media; the version is the one piece it inherits from the profile,
/// and it is never settable by a caller.
#[derive(Debug)]
pub struct Generation {
    version: u64,
    specialisation_name: Option<String>,
    /// The loaded boot specification payload.
    pub bootspec: Bootspec,
}

impl Generation {
    /// The version this generation inherited from the profile (or
    /// parent generation) that produced it.
    pub closed spec fn spec_version(&self) -> u64 {
        self.version
    }

    /// The specialisation name: `None` for the base generation of a
    /// version, the variant's name otherwise.
    pub closed spec fn spec_specialisation_name(&self) -> Option<Seq<char>> {
        match self.specialisation_name {
            Option::Some(ref name) => Option::Some(name@),
            Option::None => Option::None,
        }
    }

    /// The value of the loaded bootspec payload.
    pub closed spec fn spec_bootspec_value(&self) -> serde_json::Value {
        self.bootspec.value
    }

    /// The path of the bootspec file that resolving `profile` reads.
    pub fn bootspec_path(profile: &Profile) -> (r: String)
        ensures
            r@ == spec_bootspec_path(profile),
    {
        let mut s = profile.path.clone();
        let len = s.as_str().unicode_len();
        if len > 0 {
            let last = s.as_str().get_char(len - 1);
            if last != '/' {
                s.append("/");
            }
        }
        s.append("bootspec/boot.v1.json");
        proof {
            reveal_strlit("/");
            assert(s@ =~= spec_bootspec_path(profile));
        }
        s
    }

    /// Resolve a generation from a profile, given the outcome of the
    /// blocking read of the profile's bootspec file — the file at
    /// [`Generation::bootspec_path`]: its bytes, or the I/O error
    /// message. A failed read becomes an I/O-kind error; bytes that do
    /// not form a bootspec document become a format-kind error; both
    /// carry the attempted path. On success the generation inherits
    /// the profile's version, is not specialised, and holds exactly
    /// the value the bytes denote.
    pub fn from_profile_read(profile: &Profile, read: Result<Vec<u8>, String>) -> (r: Result<
        Generation,
        BootspecError,
    >)
        ensures
            read is Err ==> (r matches Err(BootspecError::Io { path, message }) && path@
                == spec_bootspec_path(profile) && message@ == read->Err_0@),
            read is Ok ==> {
                &&& (r is Ok <==> json_value_of(read->Ok_0@) is Some)
                &&& r is Ok ==> r->Ok_0.spec_version() == profile.version
                    && r->Ok_0.spec_specialisation_name() is None && r->Ok_0.spec_bootspec_value()
                    == json_value_of(read->Ok_0@)->0
                &&& r is Err ==> (r->Err_0 matches BootspecError::Format { path, .. } && path@
                    == spec_bootspec_path(profile))
            },
    {
        let path = Self::bootspec_path(profile);
        match read {
            Err(message) => Err(BootspecError::Io { path, message }),
            Ok(bytes) => match Bootspec::from_bytes(bytes.as_slice()) {
                Ok(bootspec) => Ok(
                    Generation { version: profile.version, specialisation_name: None, bootspec },
                ),
                Err(message) => Err(BootspecError::Format { path, message }),
            },
        }
    }

    /// Derive the named specialisation of this generation: a sibling
    /// generation with the same version, the given name, and an owned
    /// duplicate of the given bootspec — not of the receiver's. The
    /// receiver is left unchanged. This models a named boot-menu entry
    /// that shares a generation's place in the version timeline but
    /// boots a different configuration.
    pub fn specialise(&self, name: &str, bootspec: &Bootspec) -> (r: Generation)
        ensures
            r.spec_version() == self.spec_version(),
            r.spec_specialisation_name() is Some,
            r.spec_specialisation_name()->0 == name@,
            r.spec_bootspec_value() == bootspec.value,
    {
        Generation {
            version: self.version,
            specialisation_name: Some(String::from_str(name)),
            bootspec: bootspec.duplicate(),
        }
    }

    /// The specialisation name of this generation, or `None` for the
    /// base generation of its version.
    pub fn is_specialized(&self) -> (r: Option<String>)
        ensures
            r is Some <==> self.spec_specialisation_name() is Some,
            r is Some ==> r->0@ == self.spec_specialisation_name()->0,
    {
        match &self.specialisation_name {
            Some(name) => Some(name.clone()),
            None => None,
        }
    }

    /// Render this generation for display: exactly the decimal version
    /// number, specialised or not. The specialisation name is
    /// deliberately not part of this rendering; callers that build
    /// composite labels read it via [`Generation::is_specialized`].
    pub fn render(&self) -> (r: String)
        ensures
            r@ == spec_digits(self.spec_version() as nat),
    {
        u64_to_decimal(self.version)
    }
}

} // verus!
