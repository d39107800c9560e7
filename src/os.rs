//! The operating system: its display name, its kind and its banner.
use vstd::prelude::*;
use crate::error::{ErrorView, InfoError, text_view};
use crate::model::{OperatingSystem, OsArt, OsKind};
use crate::text::{
    chars_equal, chars_of, find_prefixed, first_prefixed, lemma_first_prefixed_bounds,
    lemma_split_nonempty, opt_view, remove_char, copy_chars, split, split_chars, string_of, trim,
    trim_chars, views, without_char,
};

verus! {

pub const ETC_OS_RELEASE: &'static str = "/etc/os-release";

pub const ETC_LSB_RELEASE: &'static str = "/etc/lsb-release";

/// In a `KEY=value` file, the value on the first line that starts with
/// `key`: the text after the last `=`, without `"`, trimmed; empty where no
/// line starts with `key`.
pub open spec fn release_value(text: Seq<char>, key: Seq<char>) -> Seq<char> {
    let lines = split(text, '\n');
    let line = match first_prefixed(lines, key, 0) {
        Some(i) => lines[i],
        None => Seq::<char>::empty(),
    };
    trim(remove_char(split(line, '=').last(), '"'))
}

/// The distribution name: `NAME` of `/etc/os-release` where that file could
/// be read, else `DISTRIB_DESCRIPTION` of `/etc/lsb-release`.
pub open spec fn os_name_spec(os_release: Option<Seq<char>>, lsb_release: Option<Seq<char>>) -> Result<
    Seq<char>,
    ErrorView,
> {
    match os_release {
        Some(t) => Ok(release_value(t, "NAME"@)),
        None => match lsb_release {
            Some(t) => Ok(release_value(t, "DISTRIB_DESCRIPTION"@)),
            None => Err(ErrorView::FileRead { path: ETC_LSB_RELEASE@ }),
        },
    }
}

/// The banner for a distribution name.
pub open spec fn art_for(name: Seq<char>) -> OsArt {
    if name == "Arch Linux"@ {
        OsArt::ArchLinux
    } else if name == "Alpine Linux"@ {
        OsArt::AlpineLinux
    } else if name == "Debian GNU/Linux"@ {
        OsArt::Debian
    } else {
        OsArt::Unknown
    }
}

fn release_value_of(text: &str, key: &str) -> (r: String)
    ensures
        r@ == release_value(text@, key@),
{
    let t = chars_of(text);
    let k = chars_of(key);
    let lines = split_chars(&t, '\n');
    let line = match find_prefixed(&lines, &k, 0) {
        Some(i) => {
            proof {
                lemma_first_prefixed_bounds(views(lines@), k@, 0);
            }
            assert(views(lines@)[i as int] == lines@[i as int]@);
            copy_chars(&lines[i])
        },
        None => Vec::new(),
    };
    let parts = split_chars(&line, '=');
    proof {
        lemma_split_nonempty(line@, '=');
    }
    let last = parts.len() - 1;
    assert(views(parts@)[last as int] == parts@[last as int]@);
    string_of(&trim_chars(&without_char(&parts[last], '"')))
}

/// The distribution name, from the text of `/etc/os-release`, or where that
/// could not be read (`None`) from the text of `/etc/lsb-release`.
pub fn os_name(os_release: Option<&str>, lsb_release: Option<&str>) -> (r: Result<String, InfoError>)
    ensures
        text_view(r) == os_name_spec(opt_view(os_release), opt_view(lsb_release)),
{
    match os_release {
        Some(t) => Ok(release_value_of(t, "NAME")),
        None => match lsb_release {
            Some(t) => Ok(release_value_of(t, "DISTRIB_DESCRIPTION")),
            None => Err(InfoError::FileRead { path: String::from_str(ETC_LSB_RELEASE) }),
        },
    }
}

/// The banner for a distribution name; a name outside the table gets the
/// generic banner.
pub fn os_art(name: &str) -> (r: Result<OsArt, InfoError>)
    ensures
        r == Ok::<OsArt, InfoError>(art_for(name@)),
{
    let n = chars_of(name);
    if chars_equal(&n, &chars_of("Arch Linux")) {
        Ok(OsArt::ArchLinux)
    } else if chars_equal(&n, &chars_of("Alpine Linux")) {
        Ok(OsArt::AlpineLinux)
    } else if chars_equal(&n, &chars_of("Debian GNU/Linux")) {
        Ok(OsArt::Debian)
    } else {
        Ok(OsArt::Unknown)
    }
}

/// The distribution name and its banner.
pub fn os_info(os_release: Option<&str>, lsb_release: Option<&str>) -> (r: Result<(String, OsArt), InfoError>)
    ensures
        match os_name_spec(opt_view(os_release), opt_view(lsb_release)) {
            Ok(n) => r matches Ok(p) && p.0@ == n && p.1 == art_for(n),
            Err(e) => r matches Err(x) && x@ == e,
        },
        os_release is Some ==> r is Ok,
{
    let name = os_name(os_release, lsb_release)?;
    let art = os_art(name.as_str())?;
    Ok((name, art))
}

/// The operating system fact: the kind for the build target and the
/// distribution name and banner from the release files.
pub fn operating_system(target_os: &str, os_release: Option<&str>, lsb_release: Option<&str>) -> (r:
    Result<OperatingSystem, InfoError>)
    ensures
        match os_name_spec(opt_view(os_release), opt_view(lsb_release)) {
            Ok(n) => r matches Ok(o) && o.name@ == n && o.art == art_for(n) && o.kind == kind_for(
                target_os@,
            ),
            Err(e) => r matches Err(x) && x@ == e,
        },
{
    let kind = OsKind::from_target(target_os);
    let (name, art) = os_info(os_release, lsb_release)?;
    Ok(OperatingSystem { name, kind, art })
}

/// The kind for a build-target name as `std::env::consts::OS` gives it.
pub open spec fn kind_for(os: Seq<char>) -> OsKind {
    if os == "linux"@ {
        OsKind::Linux
    } else if os == "windows"@ {
        OsKind::Windows
    } else if os == "macos"@ {
        OsKind::MacOs
    } else if os == "freebsd"@ {
        OsKind::FreeBsd
    } else {
        OsKind::Unknown
    }
}

impl OsKind {
    /// The kind for a build-target name (`linux`, `windows`, ...).
    pub fn from_target(os: &str) -> (r: OsKind)
        ensures
            r == kind_for(os@),
    {
        let s = chars_of(os);
        if chars_equal(&s, &chars_of("linux")) {
            OsKind::Linux
        } else if chars_equal(&s, &chars_of("windows")) {
            OsKind::Windows
        } else if chars_equal(&s, &chars_of("macos")) {
            OsKind::MacOs
        } else if chars_equal(&s, &chars_of("freebsd")) {
            OsKind::FreeBsd
        } else {
            OsKind::Unknown
        }
    }
}

} // verus!
