use vstd::prelude::*;

verus! {

/// The settings of a project: its name, where its sources are, its main module and where the
/// build goes.
pub struct Config {
    pub name: String,
    pub src_dir: String,
    pub main: String,
    pub build_path: String,
}

impl Default for Config {
    fn default() -> (r: Self)
        ensures
            r.name@ == "Project name"@,
            r.src_dir@ == "src"@,
            r.main@ == "main"@,
            r.build_path@ == "output.wasm"@,
    {
        Config {
            name: String::from_str("Project name"),
            src_dir: String::from_str("src"),
            main: String::from_str("main"),
            build_path: String::from_str("output.wasm"),
        }
    }
}

} // verus!
