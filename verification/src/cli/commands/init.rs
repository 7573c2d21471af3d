//! `init`: where the Typst library is installed.

use vstd::prelude::*;
use crate::paths::{components, components_of, join_path, joined};
use crate::text::push_str;

verus! {

/// Arguments of `init`.
#[derive(Debug, Clone, PartialEq)]
pub struct InitArgs {
    /// Overwrite existing library files.
    pub force: bool,
}

/// The directory below the data directory where the package goes.
pub open spec fn package_subdir(version: Seq<char>) -> Seq<char> {
    "typst/packages/local/mindtape/"@ + version
}

/// The data directory: `XDG_DATA_HOME`, else `<home>/.local/share`.
pub open spec fn data_base(home: Seq<char>, xdg: Option<Seq<char>>) -> Seq<char> {
    match xdg {
        Some(x) => x,
        None => home + "/.local/share"@,
    }
}

/// Where the local Typst package goes, given `HOME` and `XDG_DATA_HOME`:
/// an error without `HOME`, or when the path has fewer than four
/// components.
pub open spec fn package_dir_spec(
    home: Option<Seq<char>>,
    xdg: Option<Seq<char>>,
    version: Seq<char>,
) -> Result<Seq<char>, Seq<char>> {
    match home {
        None => Err("HOME not set"@),
        Some(h) => {
            let dir = joined(data_base(h, xdg), package_subdir(version));
            if components_of(dir).len() < 4 {
                Err("resolved package path looks too short: "@ + dir)
            } else {
                Ok(dir)
            }
        },
    }
}

/// The local Typst package directory, given the values of `HOME` and
/// `XDG_DATA_HOME`.
pub fn typst_package_dir(home: Option<&str>, xdg_data_home: Option<&str>, version: &str) -> (r: Result<String, String>)
    ensures
        match r {
            Ok(d) => package_dir_spec(
                match home {
                    Some(h) => Some(h@),
                    None => None,
                },
                match xdg_data_home {
                    Some(x) => Some(x@),
                    None => None,
                },
                version@,
            ) == Ok::<Seq<char>, Seq<char>>(d@),
            Err(e) => package_dir_spec(
                match home {
                    Some(h) => Some(h@),
                    None => None,
                },
                match xdg_data_home {
                    Some(x) => Some(x@),
                    None => None,
                },
                version@,
            ) == Err::<Seq<char>, Seq<char>>(e@),
        },
{
    let h = match home {
        Some(h) => h,
        None => {
            return Err("HOME not set".to_string());
        },
    };
    let base = match xdg_data_home {
        Some(x) => x.to_string(),
        None => {
            let mut b = String::new();
            push_str(&mut b, h);
            push_str(&mut b, "/.local/share");
            b
        },
    };
    let mut sub = String::new();
    push_str(&mut sub, "typst/packages/local/mindtape/");
    push_str(&mut sub, version);
    let dir = join_path(base.as_str(), sub.as_str());
    if components(dir.as_str()).len() < 4 {
        let mut m = String::new();
        push_str(&mut m, "resolved package path looks too short: ");
        push_str(&mut m, dir.as_str());
        return Err(m);
    }
    Ok(dir)
}

}
