//! The supported platforms and the fixed values that tell them apart.
use vstd::prelude::*;

verus! {

/// A target ecosystem that `init` can scaffold.
#[derive(Clone, Copy, Debug, PartialEq, Eq, Structural)]
pub enum Platform {
    Ohos,
    Android,
}

/// The `init` command: which platform to scaffold.
#[derive(Clone, Copy, Debug, PartialEq, Eq, Structural)]
pub struct InitCommand {
    pub platform: Platform,
}

/// The file mode given to the wrapper script: rwxr--r--.
pub const EXEC_MODE: u32 = 0o744;

/// The platform's key in the config document.
pub open spec fn platform_key(p: Platform) -> Seq<char> {
    match p {
        Platform::Ohos => "ohos"@,
        Platform::Android => "android"@,
    }
}

/// The directory the platform's project is created in.
pub open spec fn target_dir_of(p: Platform) -> Seq<char> {
    platform_key(p)
}

/// The template file, relative to the target directory, that holds the
/// placeholder identifier.
pub open spec fn placeholder_file_of(p: Platform) -> Seq<char> {
    match p {
        Platform::Ohos => "AppScope/app.json5"@,
        Platform::Android => "app/build.gradle"@,
    }
}

/// The identifier baked into the platform's template.
pub open spec fn placeholder_of(p: Platform) -> Seq<char> {
    match p {
        Platform::Ohos => "fun.kason.deftapp"@,
        Platform::Android => "fun.kason.deft_demo"@,
    }
}

/// The wrapper script, relative to the target directory, that must be made
/// executable, where the platform has one.
pub open spec fn exec_script_of(p: Platform) -> Option<Seq<char>> {
    match p {
        Platform::Ohos => None,
        Platform::Android => Some("gradlew"@),
    }
}

impl Platform {
    /// The platform's key in the config document.
    pub fn name(self) -> (r: &'static str)
        ensures
            r@ == platform_key(self),
    {
        match self {
            Platform::Ohos => "ohos",
            Platform::Android => "android",
        }
    }

    /// The directory the platform's project is created in.
    pub fn target_dir(self) -> (r: &'static str)
        ensures
            r@ == target_dir_of(self),
    {
        self.name()
    }

    /// The template file, relative to the target directory, that holds the
    /// placeholder identifier.
    pub fn placeholder_file(self) -> (r: &'static str)
        ensures
            r@ == placeholder_file_of(self),
    {
        match self {
            Platform::Ohos => "AppScope/app.json5",
            Platform::Android => "app/build.gradle",
        }
    }

    /// The identifier baked into the platform's template.
    pub fn placeholder(self) -> (r: &'static str)
        ensures
            r@ == placeholder_of(self),
    {
        match self {
            Platform::Ohos => "fun.kason.deftapp",
            Platform::Android => "fun.kason.deft_demo",
        }
    }

    /// The wrapper script, relative to the target directory, that must be
    /// made executable, where the platform has one.
    pub fn exec_script(self) -> (r: Option<&'static str>)
        ensures
            r matches Some(s) ==> exec_script_of(self) == Some(s@),
            r is None <==> exec_script_of(self) is None,
    {
        match self {
            Platform::Ohos => None,
            Platform::Android => Some("gradlew"),
        }
    }
}

} // verus!
