//! Where each platform keeps the fonts of a user.

use vstd::prelude::*;
use vstd::string::*;
use crate::error::InstallError;
use crate::text::same_text;

verus! {

/// The platforms that the installer tells apart.
#[derive(Clone, Copy, Debug, PartialEq, Eq, Structural)]
pub enum Platform {
    MacOs,
    Linux,
    Windows,
    Unknown,
}

/// The tag under which a platform is reported, from the name that the
/// compiler gives the target system.
pub open spec fn os_tag(target: Seq<char>) -> Seq<char> {
    if target == "macos"@ {
        "macOS"@
    } else if target == "linux"@ {
        "Linux"@
    } else if target == "windows"@ {
        "Windows"@
    } else {
        "Unknown"@
    }
}

/// The platform that a tag stands for.
pub open spec fn platform_of_tag(tag: Seq<char>) -> Platform {
    if tag == "macOS"@ {
        Platform::MacOs
    } else if tag == "Linux"@ {
        Platform::Linux
    } else if tag == "Windows"@ {
        Platform::Windows
    } else {
        Platform::Unknown
    }
}

/// `root` with the relative path `rest` below it: a `/` is put between
/// them unless `root` is empty or ends in one.
pub open spec fn joined(root: Seq<char>, rest: Seq<char>) -> Seq<char> {
    if root.len() == 0 || root.last() == '/' {
        root + rest
    } else {
        root + "/"@ + rest
    }
}

/// The font directory of a user on the platform that `os` names, given the
/// user's home directory and data directory where the system knows them.
pub open spec fn font_dir_model(
    os: Seq<char>,
    home: Option<Seq<char>>,
    data: Option<Seq<char>>,
) -> Result<Seq<char>, InstallError> {
    match platform_of_tag(os) {
        Platform::MacOs => match home {
            Some(h) => Ok(joined(h, "Library/Fonts"@)),
            None => Err(InstallError::NoHomeDirectory),
        },
        Platform::Linux => match home {
            Some(h) => Ok(joined(h, ".local/share/fonts"@)),
            None => Err(InstallError::NoHomeDirectory),
        },
        Platform::Windows => match data {
            Some(d) => Ok(joined(d, "Microsoft/Windows/Fonts"@)),
            None => Err(InstallError::NoDataDirectory),
        },
        Platform::Unknown => Err(InstallError::UnsupportedOs),
    }
}

/// A directory result with the path as its characters.
pub open spec fn dir_model(r: Result<String, InstallError>) -> Result<Seq<char>, InstallError> {
    match r {
        Ok(path) => Ok(path@),
        Err(e) => Err(e),
    }
}

/// The characters of a string that may be absent.
pub open spec fn text_of(s: Option<String>) -> Option<Seq<char>> {
    match s {
        Some(t) => Some(t@),
        None => None,
    }
}

/// The tag of the platform that the program was built for, from the
/// target system's name: `macOS`, `Linux`, `Windows` or `Unknown`.
pub fn detect_os(target: &str) -> (tag: &'static str)
    ensures
        tag@ == os_tag(target@),
{
    if same_text(target, "macos") {
        "macOS"
    } else if same_text(target, "linux") {
        "Linux"
    } else if same_text(target, "windows") {
        "Windows"
    } else {
        "Unknown"
    }
}

/// The platform that a tag stands for; `Unknown` for any tag but the three.
pub fn platform_of(tag: &str) -> (platform: Platform)
    ensures
        platform == platform_of_tag(tag@),
{
    if same_text(tag, "macOS") {
        Platform::MacOs
    } else if same_text(tag, "Linux") {
        Platform::Linux
    } else if same_text(tag, "Windows") {
        Platform::Windows
    } else {
        Platform::Unknown
    }
}

fn join(root: String, rest: &str) -> (path: String)
    ensures
        path@ == joined(root@, rest@),
{
    let n: usize = root.as_str().unicode_len();
    let mut path = root;
    if n > 0 && path.as_str().get_char(n - 1) != '/' {
        path.append("/");
    }
    path.append(rest);
    path
}

/// The font directory on the platform that `os` names, below the given
/// home or data directory. Nothing is created.
pub fn font_dir_in(os: &str, home: Option<String>, data: Option<String>) -> (r: Result<
    String,
    InstallError,
>)
    ensures
        dir_model(r) == font_dir_model(os@, text_of(home), text_of(data)),
{
    match platform_of(os) {
        Platform::MacOs => match home {
            Some(h) => Ok(join(h, "Library/Fonts")),
            None => Err(InstallError::NoHomeDirectory),
        },
        Platform::Linux => match home {
            Some(h) => Ok(join(h, ".local/share/fonts")),
            None => Err(InstallError::NoHomeDirectory),
        },
        Platform::Windows => match data {
            Some(d) => Ok(join(d, "Microsoft/Windows/Fonts")),
            None => Err(InstallError::NoDataDirectory),
        },
        Platform::Unknown => Err(InstallError::UnsupportedOs),
    }
}

/// Below a home directory that is not empty and does not end in `/`, the
/// font directory is `Library/Fonts` on macOS and `.local/share/fonts` on
/// Linux; below such a data directory it is `Microsoft/Windows/Fonts` on
/// Windows.
pub proof fn lemma_font_dirs(root: Seq<char>, other: Option<Seq<char>>)
    requires
        root.len() > 0,
        root.last() != '/',
    ensures
        font_dir_model("macOS"@, Some(root), other) == Ok::<Seq<char>, InstallError>(
            root + "/Library/Fonts"@,
        ),
        font_dir_model("Linux"@, Some(root), other) == Ok::<Seq<char>, InstallError>(
            root + "/.local/share/fonts"@,
        ),
        font_dir_model("Windows"@, other, Some(root)) == Ok::<Seq<char>, InstallError>(
            root + "/Microsoft/Windows/Fonts"@,
        ),
{
    reveal_strlit("macOS");
    reveal_strlit("Linux");
    reveal_strlit("Windows");
    reveal_strlit("/");
    reveal_strlit("Library/Fonts");
    reveal_strlit(".local/share/fonts");
    reveal_strlit("Microsoft/Windows/Fonts");
    reveal_strlit("/Library/Fonts");
    reveal_strlit("/.local/share/fonts");
    reveal_strlit("/Microsoft/Windows/Fonts");
    assert("macOS"@[0] == 'm');
    assert("Linux"@[0] == 'L');
    assert("Windows"@[0] == 'W');
    assert("/"@ + "Library/Fonts"@ =~= "/Library/Fonts"@);
    assert("/"@ + ".local/share/fonts"@ =~= "/.local/share/fonts"@);
    assert("/"@ + "Microsoft/Windows/Fonts"@ =~= "/Microsoft/Windows/Fonts"@);
    assert(root + "/"@ + "Library/Fonts"@ =~= root + ("/"@ + "Library/Fonts"@));
    assert(root + "/"@ + ".local/share/fonts"@ =~= root + ("/"@ + ".local/share/fonts"@));
    assert(root + "/"@ + "Microsoft/Windows/Fonts"@ =~= root + ("/"@
        + "Microsoft/Windows/Fonts"@));
}

/// A tag that is none of `macOS`, `Linux` and `Windows` has no font
/// directory, whatever the system knows.
pub proof fn lemma_unsupported_os(
    os: Seq<char>,
    home: Option<Seq<char>>,
    data: Option<Seq<char>>,
)
    requires
        os != "macOS"@,
        os != "Linux"@,
        os != "Windows"@,
    ensures
        font_dir_model(os, home, data) == Err::<Seq<char>, InstallError>(
            InstallError::UnsupportedOs,
        ),
{
}

/// `dirs::home_dir`: the user's home directory as the system reports it,
/// as text. Nothing is claimed of it.
#[verifier::external_body]
fn home_dir() -> (dir: Option<String>) {
    match dirs::home_dir() {
        Some(path) => Some(path.to_string_lossy().into_owned()),
        None => None,
    }
}

/// `dirs::data_dir`: the user's data directory as the system reports it,
/// as text. Nothing is claimed of it.
#[verifier::external_body]
fn data_dir() -> (dir: Option<String>) {
    match dirs::data_dir() {
        Some(path) => Some(path.to_string_lossy().into_owned()),
        None => None,
    }
}

/// The font directory of the current user on the platform that `os` names.
/// The system is asked for the home directory on macOS and Linux and for
/// the data directory on Windows; whatever it answers, the result is what
/// `font_dir_in` makes of that answer.
pub fn get_user_font_dir(os: &str) -> (r: Result<String, InstallError>)
    ensures
        platform_of_tag(os@) == Platform::Unknown <==> r == Err::<String, InstallError>(
            InstallError::UnsupportedOs,
        ),
        exists|home: Option<Seq<char>>, data: Option<Seq<char>>|
            dir_model(r) == font_dir_model(os@, home, data),
{
    match platform_of(os) {
        Platform::Windows => {
            let data = data_dir();
            let r = font_dir_in(os, None, data);
            assert(dir_model(r) == font_dir_model(os@, None, text_of(data)));
            r
        },
        Platform::Unknown => {
            let r = font_dir_in(os, None, None);
            assert(dir_model(r) == font_dir_model(os@, None, None));
            r
        },
        _ => {
            let home = home_dir();
            let r = font_dir_in(os, home, None);
            assert(dir_model(r) == font_dir_model(os@, text_of(home), None));
            r
        },
    }
}

} // verus!
