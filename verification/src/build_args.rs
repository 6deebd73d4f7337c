use vstd::prelude::*;

verus! {

/// The settings of a compilation, wherever they come from.
pub trait CompilerArgs {
    spec fn output_spec(&self) -> Seq<char>;

    spec fn optimize_spec(&self) -> Seq<char>;

    spec fn debug_ast_spec(&self) -> bool;

    spec fn no_codegen_spec(&self) -> bool;

    spec fn output_ir_spec(&self) -> Option<Seq<char>>;

    spec fn shared_spec(&self) -> bool;

    spec fn libs_spec(&self) -> Seq<Seq<char>>;

    spec fn lib_paths_spec(&self) -> Seq<Seq<char>>;

    spec fn module_paths_spec(&self) -> Seq<Seq<char>>;

    spec fn files_spec(&self) -> Seq<Seq<char>>;

    fn get_output(&self) -> (r: &String)
        ensures
            r@ == self.output_spec();

    fn get_optimize(&self) -> (r: &String)
        ensures
            r@ == self.optimize_spec();

    fn get_debug_ast(&self) -> (r: bool)
        ensures
            r == self.debug_ast_spec();

    fn get_no_codegen(&self) -> (r: bool)
        ensures
            r == self.no_codegen_spec();

    fn get_output_ir(&self) -> (r: Option<&String>)
        ensures
            match r { Some(s) => self.output_ir_spec() == Some(s@), None => self.output_ir_spec() is None };

    fn get_shared(&self) -> (r: bool)
        ensures
            r == self.shared_spec();

    fn get_libs(&self) -> (r: &Vec<String>)
        ensures
            r@.map_values(|s: String| s@) == self.libs_spec();

    fn get_lib_paths(&self) -> (r: &Vec<String>)
        ensures
            r@.map_values(|s: String| s@) == self.lib_paths_spec();

    fn get_module_paths(&self) -> (r: &Vec<String>)
        ensures
            r@.map_values(|s: String| s@) == self.module_paths_spec();

    fn get_files(&self) -> (r: &Vec<String>)
        ensures
            r@.map_values(|s: String| s@) == self.files_spec();
}

/// The settings given on the command line: the output path, an optional
/// build file, the optimization level (`none`, `1`, `2` or `3`), the
/// debugging switches, libraries, search paths and files.
pub struct Arguments {
    pub output: String,
    pub build: Option<String>,
    pub optimize: String,
    pub debug_ast: bool,
    pub no_codegen: bool,
    pub output_ir: Option<String>,
    pub shared: bool,
    pub libs: Vec<String>,
    pub lib_paths: Vec<String>,
    pub module_paths: Vec<String>,
    pub files: Vec<String>,
}

impl CompilerArgs for Arguments {
    closed spec fn output_spec(&self) -> Seq<char> {
        self.output@
    }

    closed spec fn optimize_spec(&self) -> Seq<char> {
        self.optimize@
    }

    closed spec fn debug_ast_spec(&self) -> bool {
        self.debug_ast
    }

    closed spec fn no_codegen_spec(&self) -> bool {
        self.no_codegen
    }

    closed spec fn output_ir_spec(&self) -> Option<Seq<char>> {
        match self.output_ir { Some(s) => Some(s@), None => None }
    }

    closed spec fn shared_spec(&self) -> bool {
        self.shared
    }

    closed spec fn libs_spec(&self) -> Seq<Seq<char>> {
        self.libs@.map_values(|s: String| s@)
    }

    closed spec fn lib_paths_spec(&self) -> Seq<Seq<char>> {
        self.lib_paths@.map_values(|s: String| s@)
    }

    closed spec fn module_paths_spec(&self) -> Seq<Seq<char>> {
        self.module_paths@.map_values(|s: String| s@)
    }

    closed spec fn files_spec(&self) -> Seq<Seq<char>> {
        self.files@.map_values(|s: String| s@)
    }

    fn get_output(&self) -> (r: &String) {
        &self.output
    }

    fn get_optimize(&self) -> (r: &String) {
        &self.optimize
    }

    fn get_debug_ast(&self) -> (r: bool) {
        self.debug_ast
    }

    fn get_no_codegen(&self) -> (r: bool) {
        self.no_codegen
    }

    fn get_output_ir(&self) -> (r: Option<&String>) {
        match &self.output_ir {
            Some(s) => Some(s),
            None => None,
        }
    }

    fn get_shared(&self) -> (r: bool) {
        self.shared
    }

    fn get_libs(&self) -> (r: &Vec<String>) {
        &self.libs
    }

    fn get_lib_paths(&self) -> (r: &Vec<String>) {
        &self.lib_paths
    }

    fn get_module_paths(&self) -> (r: &Vec<String>) {
        &self.module_paths
    }

    fn get_files(&self) -> (r: &Vec<String>) {
        &self.files
    }
}

/// Whether `serde_json::from_str::<serde_json::Value>` accepts the text.
pub uninterp spec fn json_accepts(text: Seq<char>) -> bool;

/// The text of the error `serde_json::from_str::<serde_json::Value>` gives
/// for a text it refuses.
pub uninterp spec fn json_error(text: Seq<char>) -> Seq<char>;

/// The string under `key` in the JSON text, where the text parses to an
/// object whose entry under `key` is a string.
pub uninterp spec fn json_string_at(text: Seq<char>, key: Seq<char>) -> Option<Seq<char>>;

/// The boolean under `key` in the JSON text, where the text parses to an
/// object whose entry under `key` is a boolean.
pub uninterp spec fn json_bool_at(text: Seq<char>, key: Seq<char>) -> Option<bool>;

/// The entries of the array under `key` in the JSON text, each as its
/// string or `None` when it is not a string, where the text parses to an
/// object whose entry under `key` is an array.
pub uninterp spec fn json_array_at(text: Seq<char>, key: Seq<char>) -> Option<Seq<Option<Seq<char>>>>;

pub open spec fn opt_str(o: Option<String>) -> Option<Seq<char>> {
    match o {
        Some(s) => Some(s@),
        None => None,
    }
}

/// Calls `serde_json::from_str::<serde_json::Value>` and keeps only whether
/// it succeeded, with the error's `Display` text when it did not.
#[verifier::external_body]
fn json_check(text: &str) -> (r: Result<(), String>)
    ensures
        r is Ok <==> json_accepts(text@),
        r matches Err(m) ==> m@ == json_error(text@),
{
    match serde_json::from_str::<serde_json::Value>(text) {
        Ok(_) => Ok(()),
        Err(e) => Err(e.to_string()),
    }
}

/// Parses the text with `serde_json::from_str::<serde_json::Value>` and
/// takes `Value::get(key)`; gives the entry when it is `Value::String`.
#[verifier::external_body]
fn json_string_field(text: &str, key: &str) -> (r: Option<String>)
    ensures
        opt_str(r) == json_string_at(text@, key@),
        !json_accepts(text@) ==> r is None,
{
    let Ok(json) = serde_json::from_str::<serde_json::Value>(text) else { return None };
    match json.get(key) {
        Some(serde_json::Value::String(s)) => Some(s.clone()),
        _ => None,
    }
}

/// Parses the text with `serde_json::from_str::<serde_json::Value>` and
/// takes `Value::get(key)`; gives the entry when it is `Value::Bool`.
#[verifier::external_body]
fn json_bool_field(text: &str, key: &str) -> (r: Option<bool>)
    ensures
        r == json_bool_at(text@, key@),
        !json_accepts(text@) ==> r is None,
{
    let Ok(json) = serde_json::from_str::<serde_json::Value>(text) else { return None };
    match json.get(key) {
        Some(serde_json::Value::Bool(b)) => Some(*b),
        _ => None,
    }
}

/// Parses the text with `serde_json::from_str::<serde_json::Value>` and
/// takes `Value::get(key)`; when it is `Value::Array`, gives its entries in
/// order, each `Value::String` as its text and any other entry as `None`.
#[verifier::external_body]
fn json_array_field(text: &str, key: &str) -> (r: Option<Vec<Option<String>>>)
    ensures
        match r {
            Some(v) => json_array_at(text@, key@) == Some(v@.map_values(|o: Option<String>| opt_str(o))),
            None => json_array_at(text@, key@) is None,
        },
        !json_accepts(text@) ==> r is None,
{
    let Ok(json) = serde_json::from_str::<serde_json::Value>(text) else { return None };
    match json.get(key) {
        Some(serde_json::Value::Array(a)) => Some(a.iter().map(|v| match v {
            serde_json::Value::String(s) => Some(s.clone()),
            _ => None,
        }).collect()),
        _ => None,
    }
}

/// The strings among the entries of a list, in order.
pub open spec fn present_strings(items: Seq<Option<Seq<char>>>) -> Seq<Seq<char>>
    decreases items.len(),
{
    if items.len() == 0 {
        Seq::empty()
    } else {
        let rest = present_strings(items.drop_last());
        match items.last() {
            Some(s) => rest.push(s),
            None => rest,
        }
    }
}

/// The strings of a list field of a build file: none when the field is not
/// an array.
pub open spec fn json_strings_at(text: Seq<char>, key: Seq<char>) -> Seq<Seq<char>> {
    match json_array_at(text, key) {
        Some(items) => present_strings(items),
        None => Seq::empty(),
    }
}

proof fn lemma_strings_of_views(items: Seq<Option<String>>)
    ensures
        strings_of(items) == present_strings(items.map_values(|o: Option<String>| opt_str(o))),
    decreases items.len(),
{
    if items.len() > 0 {
        lemma_strings_of_views(items.drop_last());
        assert(items.drop_last().map_values(|o: Option<String>| opt_str(o))
            =~= items.map_values(|o: Option<String>| opt_str(o)).drop_last());
    }
}

/// The settings read from a build file.
pub struct BuildJSON {
    output: String,
    optimize: String,
    debug_ast: bool,
    no_codegen: bool,
    output_ir: Option<String>,
    shared: bool,
    libs: Vec<String>,
    lib_paths: Vec<String>,
    module_paths: Vec<String>,
    files: Vec<String>,
}

/// The strings of a list read from a build file; entries that are not
/// strings (`None`) are left out.
pub open spec fn strings_of(items: Seq<Option<String>>) -> Seq<Seq<char>>
    decreases items.len(),
{
    if items.len() == 0 {
        Seq::empty()
    } else {
        let rest = strings_of(items.drop_last());
        match items.last() {
            Some(s) => rest.push(s@),
            None => rest,
        }
    }
}

/// The strings of an optional list: an absent list has none.
pub open spec fn strings_of_field(items: Option<Vec<Option<String>>>) -> Seq<Seq<char>> {
    match items {
        Some(v) => strings_of(v@),
        None => Seq::empty(),
    }
}

/// The strings of a list, in order, without the entries that are not
/// strings.
fn string_array(items: Option<Vec<Option<String>>>) -> (r: Vec<String>)
    ensures
        r@.map_values(|s: String| s@) == strings_of_field(items),
{
    let mut res: Vec<String> = Vec::new();
    match items {
        None => {
            assert(res@.map_values(|s: String| s@) =~= Seq::<Seq<char>>::empty());
            res
        },
        Some(v) => {
            let ghost all = v@;
            let mut i: usize = 0;
            assert(all.take(0) =~= Seq::<Option<String>>::empty());
            assert(res@.map_values(|s: String| s@) =~= Seq::<Seq<char>>::empty());
            while i < v.len()
                invariant
                    all == v@,
                    i <= all.len(),
                    res@.map_values(|s: String| s@) == strings_of(all.take(i as int)),
                decreases all.len() - i,
            {
                assert(all.take(i + 1).drop_last() =~= all.take(i as int));
                assert(all.take(i + 1).last() == all[i as int]);
                match &v[i] {
                    Some(s) => {
                        let ghost before = res@.map_values(|s: String| s@);
                        res.push(s.clone());
                        assert(res@.map_values(|s: String| s@) =~= before.push(s@));
                    },
                    None => {},
                }
                i = i + 1;
            }
            assert(all.take(all.len() as int) =~= all);
            res
        },
    }
}

impl BuildJSON {
    /// The settings from the fields of a build file: a missing `output` is
    /// `a.out`, a missing `optimize` is `2`, a missing switch is off, and a
    /// missing list is empty; entries of a list that are not strings are
    /// left out.
    pub fn from_fields(
        output: Option<String>,
        optimize: Option<String>,
        debug_ast: Option<bool>,
        no_codegen: Option<bool>,
        output_ir: Option<String>,
        shared: Option<bool>,
        libs: Option<Vec<Option<String>>>,
        lib_paths: Option<Vec<Option<String>>>,
        module_paths: Option<Vec<Option<String>>>,
        files: Option<Vec<Option<String>>>,
    ) -> (r: Self)
        ensures
            r.output_spec() == (match output { Some(s) => s@, None => "a.out"@ }),
            r.optimize_spec() == (match optimize { Some(s) => s@, None => "2"@ }),
            r.debug_ast_spec() == (debug_ast == Some(true)),
            r.no_codegen_spec() == (no_codegen == Some(true)),
            r.output_ir_spec() == (match output_ir { Some(s) => Some(s@), None => None }),
            r.shared_spec() == (shared == Some(true)),
            r.libs_spec() == strings_of_field(libs),
            r.lib_paths_spec() == strings_of_field(lib_paths),
            r.module_paths_spec() == strings_of_field(module_paths),
            r.files_spec() == strings_of_field(files),
    {
        BuildJSON {
            output: match output {
                Some(s) => s,
                None => String::from_str("a.out"),
            },
            optimize: match optimize {
                Some(s) => s,
                None => String::from_str("2"),
            },
            debug_ast: debug_ast == Some(true),
            no_codegen: no_codegen == Some(true),
            output_ir,
            shared: shared == Some(true),
            libs: string_array(libs),
            lib_paths: string_array(lib_paths),
            module_paths: string_array(module_paths),
            files: string_array(files),
        }
    }
}

impl BuildJSON {
    /// The settings in the text of a build file (see `from_fields`), or the
    /// parser's message when the text is not JSON.
    pub fn from_json_text(text: &str) -> (r: Result<BuildJSON, String>)
        ensures
            match r {
                Ok(b) => {
                    &&& json_accepts(text@)
                    &&& b.output_spec() == (match json_string_at(text@, "output"@) { Some(s) => s, None => "a.out"@ })
                    &&& b.optimize_spec() == (match json_string_at(text@, "optimize"@) { Some(s) => s, None => "2"@ })
                    &&& b.debug_ast_spec() == (json_bool_at(text@, "debug_ast"@) == Some(true))
                    &&& b.no_codegen_spec() == (json_bool_at(text@, "no_codegen"@) == Some(true))
                    &&& b.output_ir_spec() == json_string_at(text@, "output_ir"@)
                    &&& b.shared_spec() == (json_bool_at(text@, "shared"@) == Some(true))
                    &&& b.libs_spec() == json_strings_at(text@, "libs"@)
                    &&& b.lib_paths_spec() == json_strings_at(text@, "lib_paths"@)
                    &&& b.module_paths_spec() == json_strings_at(text@, "module_paths"@)
                    &&& b.files_spec() == json_strings_at(text@, "files"@)
                },
                Err(m) => !json_accepts(text@) && m@ == json_error(text@),
            },
    {
        match json_check(text) {
            Err(m) => Err(m),
            Ok(()) => {
                let libs = json_array_field(text, "libs");
                let lib_paths = json_array_field(text, "lib_paths");
                let module_paths = json_array_field(text, "module_paths");
                let files = json_array_field(text, "files");
                proof {
                    if libs is Some { lemma_strings_of_views(libs->0@); }
                    if lib_paths is Some { lemma_strings_of_views(lib_paths->0@); }
                    if module_paths is Some { lemma_strings_of_views(module_paths->0@); }
                    if files is Some { lemma_strings_of_views(files->0@); }
                }
                let b = BuildJSON::from_fields(
                    json_string_field(text, "output"),
                    json_string_field(text, "optimize"),
                    json_bool_field(text, "debug_ast"),
                    json_bool_field(text, "no_codegen"),
                    json_string_field(text, "output_ir"),
                    json_bool_field(text, "shared"),
                    libs,
                    lib_paths,
                    module_paths,
                    files,
                );
                Ok(b)
            },
        }
    }
}

impl CompilerArgs for BuildJSON {
    closed spec fn output_spec(&self) -> Seq<char> {
        self.output@
    }

    closed spec fn optimize_spec(&self) -> Seq<char> {
        self.optimize@
    }

    closed spec fn debug_ast_spec(&self) -> bool {
        self.debug_ast
    }

    closed spec fn no_codegen_spec(&self) -> bool {
        self.no_codegen
    }

    closed spec fn output_ir_spec(&self) -> Option<Seq<char>> {
        match self.output_ir { Some(s) => Some(s@), None => None }
    }

    closed spec fn shared_spec(&self) -> bool {
        self.shared
    }

    closed spec fn libs_spec(&self) -> Seq<Seq<char>> {
        self.libs@.map_values(|s: String| s@)
    }

    closed spec fn lib_paths_spec(&self) -> Seq<Seq<char>> {
        self.lib_paths@.map_values(|s: String| s@)
    }

    closed spec fn module_paths_spec(&self) -> Seq<Seq<char>> {
        self.module_paths@.map_values(|s: String| s@)
    }

    closed spec fn files_spec(&self) -> Seq<Seq<char>> {
        self.files@.map_values(|s: String| s@)
    }

    fn get_output(&self) -> (r: &String) {
        &self.output
    }

    fn get_optimize(&self) -> (r: &String) {
        &self.optimize
    }

    fn get_debug_ast(&self) -> (r: bool) {
        self.debug_ast
    }

    fn get_no_codegen(&self) -> (r: bool) {
        self.no_codegen
    }

    fn get_output_ir(&self) -> (r: Option<&String>) {
        match &self.output_ir {
            Some(s) => Some(s),
            None => None,
        }
    }

    fn get_shared(&self) -> (r: bool) {
        self.shared
    }

    fn get_libs(&self) -> (r: &Vec<String>) {
        &self.libs
    }

    fn get_lib_paths(&self) -> (r: &Vec<String>) {
        &self.lib_paths
    }

    fn get_module_paths(&self) -> (r: &Vec<String>) {
        &self.module_paths
    }

    fn get_files(&self) -> (r: &Vec<String>) {
        &self.files
    }
}

} // verus!
