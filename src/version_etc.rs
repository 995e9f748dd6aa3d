//! The text of `--version` output and of the bug-reporting note.
use vstd::prelude::*;
use vstd::string::StringExecFns;

verus! {

/// The package name shown in version output.
pub const PACKAGE_NAME: &'static str = "GNU cpio";

/// The package's short name.
pub const PACKAGE: &'static str = "cpio";

/// Where bugs are reported.
pub const PACKAGE_BUGREPORT: &'static str = "bug-cpio@gnu.org";

/// The package version.
pub const VERSION: &'static str = "2.14";

/// The first `k` names of `a`, each followed by `, `.
pub open spec fn comma_list(a: Seq<Seq<char>>, k: int) -> Seq<char>
    decreases k,
{
    if k <= 0 {
        Seq::empty()
    } else {
        comma_list(a, k - 1) + a[k - 1] + ", "@
    }
}

/// The `Written by` line for the authors `a`: none for no author, `A and B`
/// for two, a comma list ending in `and Z` for up to eight, and the first
/// eight followed by `and others` beyond that.
pub open spec fn authors_line(a: Seq<Seq<char>>) -> Seq<char> {
    if a.len() == 0 {
        Seq::empty()
    } else if a.len() == 1 {
        "Written by "@ + a[0] + ".\n"@
    } else if a.len() == 2 {
        "Written by "@ + a[0] + " and "@ + a[1] + ".\n"@
    } else if a.len() <= 8 {
        "Written by "@ + comma_list(a, a.len() - 1) + "and "@ + a[a.len() - 1] + ".\n"@
    } else {
        "Written by "@ + comma_list(a, 8) + "and others.\n"@
    }
}

/// The first line of version output.
pub open spec fn version_heading(command_name: Option<Seq<char>>, package: Seq<char>, version: Seq<char>) -> Seq<char> {
    match command_name {
        Some(name) => name + " ("@ + package + ") "@ + version + "\n"@,
        None => package + " "@ + version + "\n"@,
    }
}

/// The copyright and license lines of version output.
pub open spec fn license_lines() -> Seq<char> {
    "Copyright (C) 2023 Free Software Foundation, Inc\n"@
        + "GPL-3.0-or-later: GNU GPL version 3 or later <https://gnu.org/licenses/gpl.html>.\nThis is free software: you are free to change and redistribute it.\nThere is NO WARRANTY, to the extent permitted by law.\n"@
}

/// The views of a list of names.
pub open spec fn names_view(authors: Seq<&str>) -> Seq<Seq<char>> {
    authors.map_values(|s: &str| s@)
}

/// The whole of version output.
pub open spec fn version_text_spec(
    command_name: Option<Seq<char>>,
    package: Seq<char>,
    version: Seq<char>,
    authors: Seq<Seq<char>>,
) -> Seq<char> {
    version_heading(command_name, package, version) + license_lines() + authors_line(authors)
}

fn heading(command_name: Option<&str>, package: &str, version: &str) -> (r: String)
    ensures
        r@ == version_heading(
            match command_name {
                Some(n) => Some(n@),
                None => None,
            },
            package@,
            version@,
        ),
{
    let mut out = String::new();
    match command_name {
        Some(name) => {
            out.append(name);
            out.append(" (");
            out.append(package);
            out.append(") ");
            out.append(version);
            out.append("\n");
        },
        None => {
            out.append(package);
            out.append(" ");
            out.append(version);
            out.append("\n");
        },
    }
    assert(out@ =~= version_heading(
        match command_name {
            Some(n) => Some(n@),
            None => None,
        },
        package@,
        version@,
    ));
    out
}

fn authors_text(authors: &[&str]) -> (r: String)
    ensures
        r@ == authors_line(names_view(authors@)),
{
    let ghost a = names_view(authors@);
    let n = authors.len();
    let mut out = String::new();
    if n == 0 {
        assert(out@ =~= authors_line(a));
        return out;
    }
    out.append("Written by ");
    if n == 1 {
        out.append(authors[0]);
        out.append(".\n");
        assert(out@ =~= authors_line(a));
        return out;
    }
    if n == 2 {
        out.append(authors[0]);
        out.append(" and ");
        out.append(authors[1]);
        out.append(".\n");
        assert(out@ =~= authors_line(a));
        return out;
    }
    let listed: usize = if n <= 8 {
        n - 1
    } else {
        8
    };
    let mut k: usize = 0;
    while k < listed
        invariant
            k <= listed <= n,
            listed < n,
            n == authors@.len(),
            a == names_view(authors@),
            out@ == "Written by "@ + comma_list(a, k as int),
        decreases listed - k,
    {
        out.append(authors[k]);
        out.append(", ");
        assert(out@ =~= "Written by "@ + comma_list(a, (k + 1) as int));
        k = k + 1;
    }
    if n <= 8 {
        out.append("and ");
        out.append(authors[n - 1]);
        out.append(".\n");
    } else {
        out.append("and others.\n");
    }
    assert(out@ =~= authors_line(a));
    out
}

/// The version output for a command (when named) of `package` at `version`,
/// written by `authors`: a heading, the copyright and license lines, and the
/// authors line.
pub fn version_text(command_name: Option<&str>, package: &str, version: &str, authors: &[&str]) -> (r:
    String)
    ensures
        r@ == version_text_spec(
            match command_name {
                Some(n) => Some(n@),
                None => None,
            },
            package@,
            version@,
            names_view(authors@),
        ),
{
    let mut out = heading(command_name, package, version);
    out.append("Copyright (C) 2023 Free Software Foundation, Inc\n");
    out.append("GPL-3.0-or-later: GNU GPL version 3 or later <https://gnu.org/licenses/gpl.html>.\nThis is free software: you are free to change and redistribute it.\nThere is NO WARRANTY, to the extent permitted by law.\n");
    let a = authors_text(authors);
    out.append(a.as_str());
    assert(out@ =~= version_text_spec(
        match command_name {
            Some(n) => Some(n@),
            None => None,
        },
        package@,
        version@,
        names_view(authors@),
    ));
    out
}

/// The note on where to report bugs and find help.
pub open spec fn bug_report_spec() -> Seq<char> {
    "\n"@ + "Report bugs to: "@ + PACKAGE_BUGREPORT@ + "\n"@ + PACKAGE_NAME@
        + " home page: <http://www.gnu.org/software/cpio>\n"@ + PACKAGE_NAME@
        + " home page: <https://www.gnu.org/software/"@ + PACKAGE@ + ">\n"@
        + "General help using GNU software: <https://www.gnu.org/gethelp/>\n"@
}

/// The note on where to report bugs and find help.
pub fn bug_report_text() -> (r: String)
    ensures
        r@ == bug_report_spec(),
{
    let mut out = String::new();
    out.append("\n");
    out.append("Report bugs to: ");
    out.append(PACKAGE_BUGREPORT);
    out.append("\n");
    out.append(PACKAGE_NAME);
    out.append(" home page: <http://www.gnu.org/software/cpio>\n");
    out.append(PACKAGE_NAME);
    out.append(" home page: <https://www.gnu.org/software/");
    out.append(PACKAGE);
    out.append(">\n");
    out.append("General help using GNU software: <https://www.gnu.org/gethelp/>\n");
    assert(out@ =~= bug_report_spec());
    out
}

} // verus!
