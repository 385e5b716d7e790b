//! The application that a plugin is installed for, and where on the device
//! its files go.

use crate::error::ResolveError;
use vstd::prelude::*;
use vstd::string::*;
use vstd::utf8::*;

verus! {

/// How many hexadecimal digits name an application.
pub const TITLE_ID_LENGTH: usize = 16;

pub open spec fn is_hex_digit(b: u8) -> bool {
    ||| 0x30 <= b <= 0x39
    ||| 0x61 <= b <= 0x66
    ||| 0x41 <= b <= 0x46
}

/// Sixteen hexadecimal digits.
pub open spec fn is_title_id(s: Seq<u8>) -> bool {
    &&& s.len() == TITLE_ID_LENGTH
    &&& forall|i: int| 0 <= i < s.len() ==> is_hex_digit(#[trigger] s[i])
}

/// A text whose UTF-8 bytes are sixteen hexadecimal digits.
pub open spec fn is_title_id_text(text: Seq<char>) -> bool {
    is_title_id(encode_utf8(text))
}

/// Whether the text names an application.
pub fn check_title_id(text: &str) -> (ok: bool)
    ensures
        ok == is_title_id_text(text@),
{
    let s = text.as_bytes();
    if s.len() != TITLE_ID_LENGTH {
        return false;
    }
    let mut i: usize = 0;
    while i < s.len()
        invariant
            i <= s.len(),
            s@ == encode_utf8(text@),
            forall|j: int| 0 <= j < i ==> is_hex_digit(#[trigger] s@[j]),
        decreases s.len() - i,
    {
        let b = s[i];
        let fits = (0x30 <= b && b <= 0x39) || (0x61 <= b && b <= 0x66) || (0x41 <= b && b
            <= 0x46);
        if !fits {
            assert(!is_hex_digit(s@[i as int]));
            return false;
        }
        i = i + 1;
    }
    true
}

/// The identity that a command works on: the one given with it where there
/// is one, else the one that the project declares; in both cases only if it is
/// sixteen hexadecimal digits. An identity given with the command is never
/// passed over for the project's, even where it is malformed.
pub open spec fn resolved_identity(
    explicit: Option<Seq<char>>,
    project_config: Option<Seq<char>>,
) -> Option<Seq<char>> {
    let chosen = match explicit {
        Some(text) => Some(text),
        None => project_config,
    };
    match chosen {
        Some(text) => if is_title_id_text(text) {
            Some(text)
        } else {
            None
        },
        None => None,
    }
}

/// The directory on the device below which each application has its own.
pub open spec fn device_app_root() -> Seq<char> {
    "/atmosphere/contents"@
}

/// The directory of one application.
pub open spec fn app_dir(identity: Seq<char>) -> Seq<char> {
    device_app_root() + "/"@ + identity
}

/// The directory that holds an application's plugins.
pub open spec fn plugin_dir(identity: Seq<char>) -> Seq<char> {
    app_dir(identity) + "/plugins"@
}

/// Where a file of the given name goes in an application's plugin directory.
pub open spec fn plugin_path(identity: Seq<char>, name: Seq<char>) -> Seq<char> {
    plugin_dir(identity) + "/"@ + name
}

/// The name under which the sidecar file lies beside the plugin.
pub open spec fn sidecar_name() -> Seq<char> {
    "main.npdm"@
}

/// The identity of the application on the device for which a plugin is
/// installed: sixteen hexadecimal digits, fixed once resolved.
pub struct ApplicationIdentity {
    text: String,
}

impl View for ApplicationIdentity {
    type V = Seq<char>;

    closed spec fn view(&self) -> Seq<char> {
        self.text@
    }
}

impl ApplicationIdentity {
    #[verifier::type_invariant]
    spec fn well_formed(self) -> bool {
        is_title_id_text(self.text@)
    }

    /// The identity as text; it is sixteen hexadecimal digits.
    pub fn as_str(&self) -> (text: &str)
        ensures
            text@ == self@,
            is_title_id_text(text@),
    {
        proof {
            use_type_invariant(self);
        }
        self.text.as_str()
    }

    /// The application's own directory on the device.
    pub fn app_dir(&self) -> (path: String)
        ensures
            path@ == app_dir(self@),
    {
        let root = String::from_str("/atmosphere/contents");
        root.concat("/").concat(self.text.as_str())
    }

    /// The directory on the device that holds the application's plugins.
    pub fn plugin_dir(&self) -> (path: String)
        ensures
            path@ == plugin_dir(self@),
    {
        self.app_dir().concat("/plugins")
    }

    /// Where a file of the given name goes on the device.
    pub fn plugin_path(&self, name: &str) -> (path: String)
        ensures
            path@ == plugin_path(self@, name@),
    {
        self.plugin_dir().concat("/").concat(name)
    }

    /// Where the sidecar file goes on the device.
    pub fn sidecar_path(&self) -> (path: String)
        ensures
            path@ == plugin_path(self@, sidecar_name()),
    {
        self.plugin_path("main.npdm")
    }
}

/// Resolves the application identity: the one given with the command wins,
/// the project's is the fallback, and without a well-formed one the command
/// fails as `NoTitleId`.
pub fn resolve(explicit: Option<&str>, project_config: Option<&str>) -> (out: Result<
    ApplicationIdentity,
    ResolveError,
>)
    ensures
        match out {
            Ok(identity) => resolved_identity(explicit.deep_view(), project_config.deep_view())
                == Some(identity@),
            Err(e) => resolved_identity(explicit.deep_view(), project_config.deep_view())
                is None && e == ResolveError::NoTitleId,
        },
{
    let chosen = match explicit {
        Some(text) => Some(text),
        None => project_config,
    };
    match chosen {
        Some(text) => {
            if check_title_id(text) {
                Ok(ApplicationIdentity { text: String::from_str(text) })
            } else {
                Err(ResolveError::NoTitleId)
            }
        },
        None => Err(ResolveError::NoTitleId),
    }
}

/// An identity given with the command decides alone: what the project
/// declares changes nothing then.
pub proof fn law_explicit_identity_wins(
    explicit: Seq<char>,
    project_config: Option<Seq<char>>,
    other_config: Option<Seq<char>>,
)
    ensures
        resolved_identity(Some(explicit), project_config) == resolved_identity(
            Some(explicit),
            other_config,
        ),
        is_title_id_text(explicit) ==> resolved_identity(Some(explicit), project_config) == Some(
            explicit,
        ),
{
}

} // verus!
