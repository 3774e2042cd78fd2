use vstd::prelude::*;
use vstd::string::*;
use crate::platform_detector::Platform;
use crate::text::{eq_ignoring_ascii_case, same_text_ignoring_ascii_case};

verus! {

/// The web framework that web output targets.
#[derive(Debug, Clone, Copy, PartialEq, Eq, Structural)]
pub enum WebFramework {
    PureJs,
    React,
    Angular,
    Vue,
    Svelte,
}

/// The settings that choose what a source file is compiled to and where the output goes.
pub struct UniversalCompiler {
    platform: Platform,
    force_platform: Option<Platform>,
    output_directory: String,
    web_framework: WebFramework,
}

impl UniversalCompiler {
    /// The platform chosen for this machine, when none is forced.
    pub closed spec fn detected(&self) -> Platform {
        self.platform
    }

    pub closed spec fn forced(&self) -> Option<Platform> {
        self.force_platform
    }

    pub closed spec fn output_dir(&self) -> Seq<char> {
        self.output_directory@
    }

    pub closed spec fn framework(&self) -> WebFramework {
        self.web_framework
    }

    /// Settings for `platform` (the best target for this machine), writing to
    /// the current directory, for plain JavaScript.
    pub fn new(platform: Platform) -> (r: UniversalCompiler)
        ensures
            r.detected() == platform,
            r.forced() == Option::<Platform>::None,
            r.output_dir() == "."@,
            r.framework() == WebFramework::PureJs,
    {
        UniversalCompiler {
            platform,
            force_platform: Option::None,
            output_directory: String::from_str("."),
            web_framework: WebFramework::PureJs,
        }
    }

    /// Forces the target platform.
    pub fn set_platform(&mut self, platform: Platform)
        ensures
            final(self).forced() == Option::Some(platform),
            final(self).detected() == old(self).detected(),
            final(self).output_dir() == old(self).output_dir(),
            final(self).framework() == old(self).framework(),
    {
        self.force_platform = Option::Some(platform);
    }

    pub fn set_output_directory(&mut self, dir: &str)
        ensures
            final(self).output_dir() == dir@,
            final(self).detected() == old(self).detected(),
            final(self).forced() == old(self).forced(),
            final(self).framework() == old(self).framework(),
    {
        self.output_directory = String::from_str(dir);
    }

    pub fn set_web_framework(&mut self, framework: WebFramework)
        ensures
            final(self).framework() == framework,
            final(self).detected() == old(self).detected(),
            final(self).forced() == old(self).forced(),
            final(self).output_dir() == old(self).output_dir(),
    {
        self.web_framework = framework;
    }

    /// The forced platform if there is one, else the detected one.
    pub fn get_target_platform(&self) -> (r: Platform)
        ensures
            r == (match self.forced() {
                Option::Some(p) => p,
                Option::None => self.detected(),
            }),
    {
        match self.force_platform {
            Option::Some(p) => p,
            Option::None => self.platform,
        }
    }

    /// The directory that output goes to.
    pub fn output_directory(&self) -> (r: &str)
        ensures
            r@ == self.output_dir(),
    {
        self.output_directory.as_str()
    }

    pub fn web_framework(&self) -> (r: WebFramework)
        ensures
            r == self.framework(),
    {
        self.web_framework
    }
}

pub open spec fn framework_named(s: Seq<char>) -> WebFramework {
    if eq_ignoring_ascii_case(s, "react"@) {
        WebFramework::React
    } else if eq_ignoring_ascii_case(s, "angular"@) {
        WebFramework::Angular
    } else if eq_ignoring_ascii_case(s, "vue"@) {
        WebFramework::Vue
    } else if eq_ignoring_ascii_case(s, "svelte"@) {
        WebFramework::Svelte
    } else {
        WebFramework::PureJs
    }
}

/// The framework a name stands for, ignoring ASCII case; plain JavaScript for any other name.
pub fn parse_web_framework(framework_str: &str) -> (r: WebFramework)
    ensures
        r == framework_named(framework_str@),
{
    if same_text_ignoring_ascii_case(framework_str, "react") {
        WebFramework::React
    } else if same_text_ignoring_ascii_case(framework_str, "angular") {
        WebFramework::Angular
    } else if same_text_ignoring_ascii_case(framework_str, "vue") {
        WebFramework::Vue
    } else if same_text_ignoring_ascii_case(framework_str, "svelte") {
        WebFramework::Svelte
    } else {
        WebFramework::PureJs
    }
}

} // verus!
