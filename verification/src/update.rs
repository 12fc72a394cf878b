//! Self-update of one host. The source comes from a site that was named, the checkout that
//! the command is run in, a managed clone, or the hub that the device joined, so that
//! software spreads from host to host with no registry in between.
use vstd::prelude::*;

use crate::api;
use crate::cli;
use crate::error::{ErrorView, HadesError};
use crate::split;
use crate::split::join;
use crate::text;
use crate::text::{dec, has_suffix, trim_trailing};
use crate::values;

verus! {

/// Where an update takes its source from.
#[derive(Debug)]
pub enum UpdateSource {
    /// Fetched from this URL; its tarball has a directory at its root.
    Site(String),
    /// The checkout that the command is run in.
    Checkout,
    /// The managed sources, after a pull.
    Pull,
    /// Fetched from the hub.
    Hub(String),
    /// The managed sources as they are.
    AsIs,
}

pub enum UpdateSourceView {
    Site(Seq<char>),
    Checkout,
    Pull,
    Hub(Seq<char>),
    AsIs,
}

impl View for UpdateSource {
    type V = UpdateSourceView;

    open spec fn view(&self) -> UpdateSourceView {
        match self {
            UpdateSource::Site(u) => UpdateSourceView::Site(u@),
            UpdateSource::Checkout => UpdateSourceView::Checkout,
            UpdateSource::Pull => UpdateSourceView::Pull,
            UpdateSource::Hub(u) => UpdateSourceView::Hub(u@),
            UpdateSource::AsIs => UpdateSourceView::AsIs,
        }
    }
}

/// The tarball of a site.
pub open spec fn tarball_url(site: Seq<char>) -> Seq<char> {
    let url = text::drop_trailing(site, "/"@);
    if text::ends_with(url, ".tar.gz"@) {
        url
    } else {
        url + "/hades-src.tar.gz"@
    }
}

/// The first source that there is: a site that was named, the checkout here, a managed
/// clone, the hub, the managed sources.
pub open spec fn update_source(
    from: Option<Seq<char>>,
    here: bool,
    managed_git: bool,
    hub: Option<Seq<char>>,
    managed: bool,
) -> Option<UpdateSourceView> {
    match from {
        Some(u) => Some(UpdateSourceView::Site(tarball_url(u))),
        None => if here {
            Some(UpdateSourceView::Checkout)
        } else if managed_git {
            Some(UpdateSourceView::Pull)
        } else {
            match hub {
                Some(h) => Some(UpdateSourceView::Hub(h)),
                None => if managed {
                    Some(UpdateSourceView::AsIs)
                } else {
                    None
                },
            }
        },
    }
}

pub fn choose_source(
    from: Option<&str>,
    here: bool,
    managed_git: bool,
    hub: Option<&str>,
    managed: bool,
) -> (r: Result<UpdateSource, HadesError>)
    ensures
        match update_source(cli::opt_str(from), here, managed_git, cli::opt_str(hub), managed) {
            Some(s) => r matches Ok(x) && x@ == s,
            None => r matches Err(e) && e@ == ErrorView::Other(
                "nowhere to update from — run inside a checkout, join a fleet, or pass --from <site-url>"@,
            ),
        },
{
    match from {
        Some(u) => {
            let url = trim_trailing(u, "/");
            if has_suffix(url.as_str(), ".tar.gz") {
                Ok(UpdateSource::Site(url))
            } else {
                Ok(UpdateSource::Site(url.concat("/hades-src.tar.gz")))
            }
        },
        None => if here {
            Ok(UpdateSource::Checkout)
        } else if managed_git {
            Ok(UpdateSource::Pull)
        } else {
            match hub {
                Some(h) => Ok(UpdateSource::Hub(h.to_owned())),
                None => if managed {
                    Ok(UpdateSource::AsIs)
                } else {
                    Err(
                        HadesError::Other(
                            "nowhere to update from — run inside a checkout, join a fleet, or pass --from <site-url>".to_owned(),
                        ),
                    )
                },
            }
        },
    }
}

impl UpdateSource {
    /// What is told of the source afterwards.
    pub fn describe(&self) -> (r: String)
        ensures
            r@ == match self@ {
                UpdateSourceView::Site(u) => u,
                UpdateSourceView::Checkout => "local checkout"@,
                UpdateSourceView::Pull => "git"@,
                UpdateSourceView::Hub(h) => "hub "@ + h,
                UpdateSourceView::AsIs => "existing sources"@,
            },
    {
        match self {
            UpdateSource::Site(u) => u.clone(),
            UpdateSource::Checkout => "local checkout".to_owned(),
            UpdateSource::Pull => "git".to_owned(),
            UpdateSource::Hub(h) => "hub ".to_owned().concat(h.as_str()),
            UpdateSource::AsIs => "existing sources".to_owned(),
        }
    }

    /// What is told before the source is brought up to date.
    pub fn progress(&self, dir: &str) -> (r: String)
        ensures
            r@ == match self@ {
                UpdateSourceView::Site(u) => "fetching "@ + u,
                UpdateSourceView::Checkout => "using this checkout: "@ + dir@,
                UpdateSourceView::Pull => "git pull in ~/.hades/src"@,
                UpdateSourceView::Hub(h) => "fetching source from the hub ("@ + h + ")"@,
                UpdateSourceView::AsIs => "no update source — rebuilding ~/.hades/src as-is"@,
            },
    {
        match self {
            UpdateSource::Site(u) => "fetching ".to_owned().concat(u.as_str()),
            UpdateSource::Checkout => "using this checkout: ".to_owned().concat(dir),
            UpdateSource::Pull => "git pull in ~/.hades/src".to_owned(),
            UpdateSource::Hub(h) => "fetching source from the hub (".to_owned().concat(
                h.as_str(),
            ).concat(")"),
            UpdateSource::AsIs => "no update source — rebuilding ~/.hades/src as-is".to_owned(),
        }
    }

    /// How many leading directories are stripped from a tarball of this source.
    pub fn strip(&self) -> (r: u8)
        ensures
            r == if self@ is Site {
                1u8
            } else {
                0u8
            },
    {
        match self {
            UpdateSource::Site(_) => 1,
            _ => 0,
        }
    }
}

/// The arguments that unpack a tarball, with so many leading directories stripped.
pub open spec fn unpacking(archive: Seq<char>, dest: Seq<char>, strip: u8) -> Seq<Seq<char>> {
    let plain = seq!["xzf"@, archive, "-C"@, dest];
    if strip > 0 {
        plain.push("--strip-components="@ + text::decimal(strip as nat))
    } else {
        plain
    }
}

pub fn unpack_args(archive: &str, dest: &str, strip: u8) -> (r: Vec<String>)
    ensures
        split::views(r@) == unpacking(archive@, dest@, strip),
{
    let mut args: Vec<String> = Vec::new();
    args.push("xzf".to_owned());
    args.push(archive.to_owned());
    args.push("-C".to_owned());
    args.push(dest.to_owned());
    if strip > 0 {
        args.push("--strip-components=".to_owned().concat(dec(strip as u64).as_str()));
    }
    assert(split::views(args@) =~= unpacking(archive@, dest@, strip));
    args
}

/// Is a directory a checkout, given what its manifest holds?
pub fn is_checkout(manifest: Option<&str>) -> (r: bool)
    ensures
        r == (manifest is Some && text::contains(manifest->0@, "hades-cli"@)),
{
    match manifest {
        Some(m) => text::has(m, "hades-cli"),
        None => false,
    }
}

/// A tool that failed: its last lines are told.
pub fn tool_failed(tool: &str, args: &Vec<String>, stderr: &str) -> (r: HadesError)
    ensures
        r@ == ErrorView::Other(
            tool@ + " "@ + split::joined(split::views(args@), " "@) + " failed:\n"@ + split::joined(
                api::tail(split::line_list(stderr@), 12),
                "\n"@,
            ),
        ),
{
    let last = api::last_lines(stderr, 12);
    HadesError::Other(
        tool.to_owned().concat(" ").concat(join(args, " ").as_str()).concat(" failed:\n").concat(
            join(&last, "\n").as_str(),
        ),
    )
}

/// The build tool: the one on the path, else the one in the home directory.
pub fn cargo_path(on_path: bool, home: Option<&str>) -> (r: String)
    ensures
        r@ == if on_path {
            "cargo"@
        } else {
            (match home {
                Some(h) => h@,
                None => ""@,
            }) + "/.cargo/bin/cargo"@
        },
{
    if on_path {
        "cargo".to_owned()
    } else {
        let home = match home {
            Some(h) => h,
            None => "",
        };
        home.to_owned().concat("/.cargo/bin/cargo")
    }
}

/// How often the daemon is looked for after a restart, twice a second.
pub const RESTART_TRIES: u32 = 30;

/// What to do after a look for the restarted daemon.
#[derive(Debug)]
pub enum Restart {
    Wait,
    Up(String),
    GaveUp,
}

/// Looks for the daemon until it answers, but not forever. `looks` counts this look too.
pub fn restart_seen(looks: u32, version: Option<String>) -> (r: Restart)
    ensures
        match version {
            Some(v) => r matches Restart::Up(w) && w@ == v@,
            None => if looks < RESTART_TRIES {
                r is Wait
            } else {
                r is GaveUp
            },
        },
{
    match version {
        Some(v) => Restart::Up(v),
        None => if looks < RESTART_TRIES {
            Restart::Wait
        } else {
            Restart::GaveUp
        },
    }
}

/// What is told of an update.
pub open spec fn updated_page(
    source: Seq<char>,
    old_version: Option<Seq<char>>,
    new_version: Seq<char>,
    restarted: bool,
) -> Seq<Seq<char>> {
    let head = seq![
        ""@,
        "  updated from "@ + source + ": v"@ + (match old_version {
            Some(v) => v,
            None => "?"@,
        }) + " → v"@ + new_version,
    ];
    if restarted {
        head
    } else {
        head.push("  daemon did not come back by itself; start hadesd (or check launchd)"@)
    }
}

/// What came of an update.
#[derive(Debug)]
pub struct UpdateOutcome {
    pub source: String,
    pub old_version: Option<String>,
    pub new_version: String,
    pub daemon_restarted: bool,
}

pub fn updated_lines(o: &UpdateOutcome) -> (r: Vec<String>)
    ensures
        split::views(r@) == updated_page(
            o.source@,
            values::opt_view(o.old_version),
            o.new_version@,
            o.daemon_restarted,
        ),
{
    let old = match &o.old_version {
        Some(v) => v.as_str(),
        None => "?",
    };
    let mut page: Vec<String> = Vec::new();
    page.push("".to_owned());
    page.push(
        "  updated from ".to_owned().concat(o.source.as_str()).concat(": v").concat(old).concat(
            " → v",
        ).concat(o.new_version.as_str()),
    );
    if !o.daemon_restarted {
        page.push(
            "  daemon did not come back by itself; start hadesd (or check launchd)".to_owned(),
        );
    }
    assert(split::views(page@) =~= updated_page(
        o.source@,
        values::opt_view(o.old_version),
        o.new_version@,
        o.daemon_restarted,
    ));
    page
}

// ---------------------------------------------------------------------------- laws

/// An update takes the first source that there is: the site that was named before the
/// checkout, that before a managed clone, that before the hub, and that before what lies
/// there.
pub proof fn the_first_source_is_taken(
    from: Option<Seq<char>>,
    here: bool,
    managed_git: bool,
    hub: Option<Seq<char>>,
    managed: bool,
)
    ensures
        ({
            let s = update_source(from, here, managed_git, hub, managed);
            &&& s is None <==> from is None && !here && !managed_git && hub is None && !managed
            &&& from is Some <==> s is Some && s->0 is Site
            &&& from is None && here <==> s is Some && s->0 is Checkout
            &&& from is None && !here && managed_git <==> s is Some && s->0 is Pull
            &&& from is None && !here && !managed_git && hub is Some <==> s is Some && s->0 is Hub
            &&& s is Some && s->0 is Hub ==> s->0 == UpdateSourceView::Hub(hub->0)
            &&& s is Some && s->0 is Site ==> s->0 == UpdateSourceView::Site(tarball_url(from->0))
        }),
{
}

/// A tarball is fetched from below its site, unless it was named itself.
pub proof fn tarballs_are_fetched_from_their_site(site: Seq<char>)
    requires
        !text::ends_with(site, "/"@),
    ensures
        text::ends_with(site, ".tar.gz"@) ==> tarball_url(site) == site,
        !text::ends_with(site, ".tar.gz"@) ==> tarball_url(site) == site + "/hades-src.tar.gz"@,
        tarball_url(site + "/"@) == tarball_url(site),
{
    reveal_strlit("/");
    let more = site + "/"@;
    assert(more.skip(more.len() - 1) =~= "/"@);
    assert(more.take(more.len() - 1) =~= site);
}

/// A tarball is unpacked to its place, with as many directories stripped as are said.
pub proof fn tarballs_are_unpacked_in_place(archive: Seq<char>, dest: Seq<char>, strip: u8)
    ensures
        ({
            let args = unpacking(archive, dest, strip);
            &&& args[1] == archive && args[2] == "-C"@ && args[3] == dest
            &&& strip == 0 ==> args.len() == 4
            &&& strip > 0 ==> args.len() == 5 && args[4] == "--strip-components="@ + text::decimal(
                strip as nat,
            )
        }),
{
}

} // verus!
