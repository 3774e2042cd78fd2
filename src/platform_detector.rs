use vstd::prelude::*;
use crate::text::same_text;

verus! {

/// The platforms a program can be built for.
#[derive(Debug, Clone, Copy, PartialEq, Eq, Structural)]
pub enum Platform {
    MacOS,
    Windows,
    Linux,
    IOS,
    Android,
    Web,
    Unknown,
}

/// Whether `platform` is a mobile platform.
pub fn is_mobile(platform: Platform) -> (r: bool)
    ensures
        r == (platform == Platform::IOS || platform == Platform::Android),
{
    platform == Platform::IOS || platform == Platform::Android
}

/// Whether `platform` is a desktop platform.
pub fn is_desktop(platform: Platform) -> (r: bool)
    ensures
        r == (platform == Platform::MacOS || platform == Platform::Windows || platform
            == Platform::Linux),
{
    platform == Platform::MacOS || platform == Platform::Windows || platform == Platform::Linux
}

/// Whether `platform` is the web.
pub fn is_web(platform: Platform) -> (r: bool)
    ensures
        r == (platform == Platform::Web),
{
    platform == Platform::Web
}

pub open spec fn name_of(p: Platform) -> Seq<char> {
    match p {
        Platform::MacOS => "macos"@,
        Platform::Windows => "windows"@,
        Platform::Linux => "linux"@,
        Platform::IOS => "ios"@,
        Platform::Android => "android"@,
        Platform::Web => "web"@,
        Platform::Unknown => "unknown"@,
    }
}

/// The short name of a platform.
pub fn platform_name(platform: Platform) -> (r: &'static str)
    ensures
        r@ == name_of(platform),
{
    match platform {
        Platform::MacOS => "macos",
        Platform::Windows => "windows",
        Platform::Linux => "linux",
        Platform::IOS => "ios",
        Platform::Android => "android",
        Platform::Web => "web",
        Platform::Unknown => "unknown",
    }
}

pub open spec fn language_of(p: Platform) -> Seq<char> {
    match p {
        Platform::MacOS => "swift"@,
        Platform::Windows => "csharp"@,
        Platform::Linux => "c"@,
        Platform::IOS => "swift"@,
        Platform::Android => "kotlin"@,
        Platform::Web => "javascript"@,
        Platform::Unknown => "javascript"@,
    }
}

/// The language that code for a platform is generated in; JavaScript when the platform is unknown.
pub fn platform_language(platform: Platform) -> (r: &'static str)
    ensures
        r@ == language_of(platform),
{
    match platform {
        Platform::MacOS => "swift",
        Platform::Windows => "csharp",
        Platform::Linux => "c",
        Platform::IOS => "swift",
        Platform::Android => "kotlin",
        Platform::Web => "javascript",
        Platform::Unknown => "javascript",
    }
}

pub open spec fn extension_of(p: Platform) -> Seq<char> {
    match p {
        Platform::MacOS => "swift"@,
        Platform::Windows => "cs"@,
        Platform::Linux => "c"@,
        Platform::IOS => "swift"@,
        Platform::Android => "kt"@,
        Platform::Web => "js"@,
        Platform::Unknown => "js"@,
    }
}

/// The file extension of a platform's language.
pub fn platform_file_extension(platform: Platform) -> (r: &'static str)
    ensures
        r@ == extension_of(platform),
{
    match platform {
        Platform::MacOS => "swift",
        Platform::Windows => "cs",
        Platform::Linux => "c",
        Platform::IOS => "swift",
        Platform::Android => "kt",
        Platform::Web => "js",
        Platform::Unknown => "js",
    }
}

/// The platform that one command-line argument asks for: `--target=NAME` or `--NAME`.
pub open spec fn arg_platform(a: Seq<char>) -> Option<Platform> {
    if a == "--target=macos"@ || a == "--macos"@ {
        Option::Some(Platform::MacOS)
    } else if a == "--target=windows"@ || a == "--windows"@ {
        Option::Some(Platform::Windows)
    } else if a == "--target=linux"@ || a == "--linux"@ {
        Option::Some(Platform::Linux)
    } else if a == "--target=ios"@ || a == "--ios"@ {
        Option::Some(Platform::IOS)
    } else if a == "--target=android"@ || a == "--android"@ {
        Option::Some(Platform::Android)
    } else if a == "--target=web"@ || a == "--web"@ {
        Option::Some(Platform::Web)
    } else {
        Option::None
    }
}

fn platform_of_arg(a: &str) -> (r: Option<Platform>)
    ensures
        r == arg_platform(a@),
{
    if same_text(a, "--target=macos") || same_text(a, "--macos") {
        Option::Some(Platform::MacOS)
    } else if same_text(a, "--target=windows") || same_text(a, "--windows") {
        Option::Some(Platform::Windows)
    } else if same_text(a, "--target=linux") || same_text(a, "--linux") {
        Option::Some(Platform::Linux)
    } else if same_text(a, "--target=ios") || same_text(a, "--ios") {
        Option::Some(Platform::IOS)
    } else if same_text(a, "--target=android") || same_text(a, "--android") {
        Option::Some(Platform::Android)
    } else if same_text(a, "--target=web") || same_text(a, "--web") {
        Option::Some(Platform::Web)
    } else {
        Option::None
    }
}

/// The platform named by the first argument that names one; `current` when none does.
pub open spec fn platform_from_args(args: Seq<Seq<char>>, current: Platform) -> Platform
    decreases args.len(),
{
    if args.len() == 0 {
        current
    } else if arg_platform(args[0]) is Some {
        arg_platform(args[0])->0
    } else {
        platform_from_args(args.subrange(1, args.len() as int), current)
    }
}

/// The platform that the command-line arguments ask for, or `current`, the
/// platform detected on this machine, when they ask for none.
pub fn get_target_platform_from_args(args: &Vec<String>, current: Platform) -> (r: Platform)
    ensures
        r == platform_from_args(crate::ast::strings_view(args@), current),
{
    let ghost v = crate::ast::strings_view(args@);
    assert(v.subrange(0, v.len() as int) == v);
    let mut i: usize = 0;
    while i < args.len()
        invariant
            i <= args.len(),
            v == crate::ast::strings_view(args@),
            platform_from_args(v, current) == platform_from_args(
                v.subrange(i as int, v.len() as int),
                current,
            ),
        decreases args.len() - i,
    {
        let ghost rest = v.subrange(i as int, v.len() as int);
        assert(rest[0] == args@[i as int]@);
        if let Option::Some(p) = platform_of_arg(args[i].as_str()) {
            return p;
        }
        assert(rest.subrange(1, rest.len() as int) == v.subrange(i + 1, v.len() as int));
        i = i + 1;
    }
    current
}

/// The platform to build for: the one asked for, else the current one, else the web.
pub fn determine_best_target(from_args: Platform, current: Platform) -> (r: Platform)
    ensures
        r == (if from_args != Platform::Unknown {
            from_args
        } else if current != Platform::Unknown {
            current
        } else {
            Platform::Web
        }),
{
    if from_args != Platform::Unknown {
        return from_args;
    }
    if current != Platform::Unknown {
        return current;
    }
    Platform::Web
}

} // verus!
