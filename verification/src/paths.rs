//! Where the application keeps its data. The credentials of providers stay
//! where the providers keep them.

use vstd::prelude::*;

verus! {

/// The kinds of systems that the application runs on.
#[derive(Debug, Clone, Copy, PartialEq, Eq, Structural)]
pub enum Platform {
    Unix,
    Windows,
}

/// The variables of the environment that decide where the data is kept.
#[derive(Debug, Clone, Copy, PartialEq, Eq, Structural)]
pub enum Variable {
    ZeronDataDir,
    LocalAppData,
    UserProfile,
    Home,
}

/// What a variable of the environment holds.
#[derive(Debug, Clone, Copy, PartialEq, Eq, Structural)]
pub enum Setting {
    Unset,
    Empty,
    Filled,
}

/// What the variables of the environment hold.
#[derive(Debug, Clone, Copy, PartialEq, Eq, Structural)]
pub struct Environment {
    pub zeron_data_dir: Setting,
    pub local_app_data: Setting,
    pub user_profile: Setting,
    pub home: Setting,
}

/// Where the data is kept: in the directory that a variable names, or in one
/// within it.
#[derive(Debug, Clone, PartialEq)]
pub struct DataDir {
    pub base: Variable,
    pub within: Vec<&'static str>,
}

/// Where the data is kept, if it can be told. On Windows a shell's own home does
/// not count: a program that was started from the desktop does not have it.
pub open spec fn data_dir_of(platform: Platform, e: Environment) -> Result<
    (Variable, Seq<Seq<char>>),
    Seq<char>,
> {
    if e.zeron_data_dir != Setting::Unset {
        Ok((Variable::ZeronDataDir, Seq::empty()))
    } else {
        match platform {
            Platform::Windows => if e.local_app_data == Setting::Filled {
                Ok((Variable::LocalAppData, seq!["JJzeron"@]))
            } else if e.user_profile == Setting::Filled {
                Ok((Variable::UserProfile, seq!["AppData"@, "Local"@, "JJzeron"@]))
            } else {
                Err("LOCALAPPDATA and USERPROFILE not set; set ZERON_DATA_DIR"@)
            },
            Platform::Unix => if e.home != Setting::Unset {
                Ok((Variable::Home, seq![".jjzeron"@]))
            } else {
                Err("HOME not set"@)
            },
        }
    }
}

/// The names of a list.
pub open spec fn names(list: Seq<&'static str>) -> Seq<Seq<char>> {
    list.map_values(|name: &'static str| name@)
}

/// The name of a variable.
pub open spec fn variable_text(variable: Variable) -> Seq<char> {
    match variable {
        Variable::ZeronDataDir => "ZERON_DATA_DIR"@,
        Variable::LocalAppData => "LOCALAPPDATA"@,
        Variable::UserProfile => "USERPROFILE"@,
        Variable::Home => "HOME"@,
    }
}

/// The name of a variable.
pub fn variable_name(variable: Variable) -> (name: &'static str)
    ensures
        name@ == variable_text(variable),
{
    match variable {
        Variable::ZeronDataDir => "ZERON_DATA_DIR",
        Variable::LocalAppData => "LOCALAPPDATA",
        Variable::UserProfile => "USERPROFILE",
        Variable::Home => "HOME",
    }
}

/// Where the data is kept, or why it cannot be told.
pub fn resolve_data_dir(platform: Platform, environment: Environment) -> (dir: Result<
    DataDir,
    &'static str,
>)
    ensures
        match dir {
            Ok(dir) => data_dir_of(platform, environment) == Ok::<
                (Variable, Seq<Seq<char>>),
                Seq<char>,
            >((dir.base, names(dir.within@))),
            Err(reason) => data_dir_of(platform, environment) == Err::<
                (Variable, Seq<Seq<char>>),
                Seq<char>,
            >(reason@),
        },
{
    let mut within: Vec<&'static str> = Vec::new();
    if environment.zeron_data_dir != Setting::Unset {
        proof {
            assert(names(within@) =~= Seq::<Seq<char>>::empty());
        }
        return Ok(DataDir { base: Variable::ZeronDataDir, within });
    }
    match platform {
        Platform::Windows => {
            if environment.local_app_data == Setting::Filled {
                within.push("JJzeron");
                proof {
                    assert(names(within@) =~= seq!["JJzeron"@]);
                }
                Ok(DataDir { base: Variable::LocalAppData, within })
            } else if environment.user_profile == Setting::Filled {
                within.push("AppData");
                within.push("Local");
                within.push("JJzeron");
                proof {
                    assert(names(within@) =~= seq!["AppData"@, "Local"@, "JJzeron"@]);
                }
                Ok(DataDir { base: Variable::UserProfile, within })
            } else {
                Err("LOCALAPPDATA and USERPROFILE not set; set ZERON_DATA_DIR")
            }
        },
        Platform::Unix => {
            if environment.home != Setting::Unset {
                within.push(".jjzeron");
                proof {
                    assert(names(within@) =~= seq![".jjzeron"@]);
                }
                Ok(DataDir { base: Variable::Home, within })
            } else {
                Err("HOME not set")
            }
        },
    }
}

/// A directory that is named outright is taken whatever else is set, and only
/// then is it taken as it is.
pub proof fn a_named_directory_is_taken_as_it_is(platform: Platform, e: Environment)
    ensures
        e.zeron_data_dir != Setting::Unset <==> data_dir_of(platform, e) == Ok::<
            (Variable, Seq<Seq<char>>),
            Seq<char>,
        >((Variable::ZeronDataDir, Seq::empty())),
{
}

/// On Windows the home of a shell does not count, elsewhere only it does.
pub proof fn a_shell_home_counts_on_unix_alone(e: Environment, home: Setting, f: Environment)
    requires
        f.zeron_data_dir == e.zeron_data_dir,
        f.home == e.home,
    ensures
        data_dir_of(Platform::Windows, Environment { home, ..e }) == data_dir_of(
            Platform::Windows,
            e,
        ),
        data_dir_of(Platform::Unix, f) == data_dir_of(Platform::Unix, e),
{
}

} // verus!
