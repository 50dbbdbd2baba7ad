//! The settings of a run and the rules that are looked up by file extension.

pub mod cf_parsing;
pub mod cla_parsing;

use crate::checker_error::{CheckerError, CheckerResult};
use crate::clean_files::AutoRemoveFiles;
use crate::compilation::CompilationConfig;
use crate::config::cla_parsing::ClaConfig;
use crate::launch::diff_tool::{DiffTool, DiffToolView};
use crate::launch::filter::OutputFilter;
use crate::launch::LaunchConfig;
use crate::path_lib::FilePath;
use crate::text::views;
use crate::util::TimeSpan;
use vstd::hash_map::StringHashMap;
use vstd::prelude::*;
use vstd::string::*;

verus! {

/// `m` with every extension of `exts` mapped to `rule`.
pub open spec fn with_rule<T>(m: Map<Seq<char>, T>, exts: Seq<Seq<char>>, rule: T) -> Map<
    Seq<char>,
    T,
> {
    Map::new(
        |k: Seq<char>| m.contains_key(k) || exts.contains(k),
        |k: Seq<char>|
            if exts.contains(k) {
                rule
            } else {
                m[k]
            },
    )
}

/// The lookup table that `entries` define: each extension is mapped to the
/// rule of the last entry that lists it.
pub open spec fn rules_map<T>(entries: Seq<(Vec<String>, T)>) -> Map<Seq<char>, T>
    decreases entries.len(),
{
    if entries.len() == 0 {
        Map::empty()
    } else {
        with_rule(rules_map(entries.drop_last()), views(entries.last().0@), entries.last().1)
    }
}

/// The map from extensions to rules that an index into `store` for each
/// extension stands for.
pub open spec fn table<T>(mapping: Map<Seq<char>, usize>, store: Seq<T>) -> Map<Seq<char>, T> {
    Map::new(|k: Seq<char>| mapping.contains_key(k), |k: Seq<char>| store[mapping[k] as int])
}

/// Whether every index of `mapping` points into a store of `len` rules.
pub open spec fn in_store(mapping: Map<Seq<char>, usize>, len: nat) -> bool {
    forall|k: Seq<char>| #[trigger] mapping.contains_key(k) ==> mapping[k] < len
}

/// Rules that are matched by file extension.
pub struct ExtensionRules<T> {
    store: Vec<T>,
    mapping: StringHashMap<usize>,
}

impl<T> View for ExtensionRules<T> {
    type V = Map<Seq<char>, T>;

    closed spec fn view(&self) -> Map<Seq<char>, T> {
        table(self.mapping@, self.store@)
    }
}

impl<T> ExtensionRules<T> {
    #[verifier::type_invariant]
    spec fn inv(self) -> bool {
        in_store(self.mapping@, self.store@.len())
    }

    /// The rule of the extension `ext`, if one was given for it.
    pub fn get_rule(&self, ext: &String) -> (r: Option<&T>)
        ensures
            match r {
                Some(rule) => self@.contains_key(ext@) && *rule == self@[ext@],
                None => !self@.contains_key(ext@),
            },
    {
        proof {
            use_type_invariant(self);
        }
        match self.mapping.get(ext.as_str()) {
            Some(i) => Some(&self.store[*i]),
            None => None,
        }
    }

    /// The rules that `value` lists, each with the extensions it is for. An
    /// extension that several entries list gets the rule of the last of them.
    pub fn from(value: Vec<(Vec<String>, T)>) -> (r: Self)
        ensures
            r@ == rules_map(value@),
    {
        let mut store: Vec<T> = Vec::new();
        let mut mapping: StringHashMap<usize> = StringHashMap::new();
        let ghost entries = value@;
        assert(entries.take(0) =~= Seq::<(Vec<String>, T)>::empty());
        assert(table(mapping@, store@) =~= rules_map(entries.take(0)));
        for entry in it: value
            invariant
                it.seq() == entries,
                store.len() == it.index(),
                in_store(mapping@, store@.len()),
                table(mapping@, store@) == rules_map(entries.take(it.index() as int)),
        {
            let ghost done = it.index() as int;
            let ghost old_store = store@;
            let ghost old_mapping = mapping@;
            let (exts, rule) = entry;
            let i: usize = store.len();
            store.push(rule);
            let mut j: usize = 0;
            assert(mapping@ =~= with_rule(old_mapping, views(exts@).take(0), i));
            while j < exts.len()
                invariant
                    j <= exts.len(),
                    mapping@ == with_rule(old_mapping, views(exts@).take(j as int), i),
                decreases exts.len() - j,
            {
                let ghost before = views(exts@).take(j as int);
                let ghost after = views(exts@).take(j + 1);
                let ghost key = exts[j as int]@;
                proof {
                    assert(after =~= before.push(key));
                    assert forall|k: Seq<char>| after.contains(k) <==> before.contains(k) || k
                        == key by {
                        if before.contains(k) {
                            let x = choose|x: int| 0 <= x < before.len() && before[x] == k;
                            assert(after[x] == k);
                        }
                        if k == key {
                            assert(after[j as int] == k);
                        }
                    }
                    assert(with_rule(old_mapping, before, i).insert(key, i) =~= with_rule(
                        old_mapping,
                        after,
                        i,
                    ));
                }
                mapping.insert(exts[j].clone(), i);
                j += 1;
            }
            proof {
                assert(views(exts@).take(exts.len() as int) =~= views(exts@));
                assert(entries.take(done + 1).drop_last() =~= entries.take(done));
                assert(entries.take(done + 1).last() == entries[done]);
                assert(table(mapping@, store@) =~= with_rule(
                    table(old_mapping, old_store),
                    views(exts@),
                    rule,
                ));
            }
        }
        assert(entries.take(entries.len() as int) =~= entries);
        ExtensionRules { store, mapping }
    }
}

/// Whether the entry lists the extension `ext`.
pub open spec fn lists<T>(entry: (Vec<String>, T), ext: Seq<char>) -> bool {
    views(entry.0@).contains(ext)
}

/// An extension that no entry lists has no rule.
pub proof fn lemma_unlisted_extension_has_no_rule<T>(
    entries: Seq<(Vec<String>, T)>,
    ext: Seq<char>,
)
    requires
        forall|i: int| 0 <= i < entries.len() ==> !lists(#[trigger] entries[i], ext),
    ensures
        !rules_map(entries).contains_key(ext),
    decreases entries.len(),
{
    if entries.len() > 0 {
        assert forall|i: int| 0 <= i < entries.drop_last().len() implies !lists(
            #[trigger] entries.drop_last()[i],
            ext,
        ) by {
            assert(entries.drop_last()[i] == entries[i]);
        }
        lemma_unlisted_extension_has_no_rule(entries.drop_last(), ext);
        assert(!lists(entries[entries.len() - 1], ext));
    }
}

/// The last entry that lists an extension gives its rule, whatever earlier
/// entries list it too.
pub proof fn lemma_last_listing_entry_wins<T>(
    entries: Seq<(Vec<String>, T)>,
    ext: Seq<char>,
    last: int,
)
    requires
        0 <= last < entries.len(),
        lists(entries[last], ext),
        forall|i: int| last < i < entries.len() ==> !lists(#[trigger] entries[i], ext),
    ensures
        rules_map(entries).contains_key(ext),
        rules_map(entries)[ext] == entries[last].1,
    decreases entries.len(),
{
    if last < entries.len() - 1 {
        assert(!lists(entries[entries.len() - 1], ext));
        assert forall|i: int| last < i < entries.drop_last().len() implies !lists(
            #[trigger] entries.drop_last()[i],
            ext,
        ) by {
            assert(entries.drop_last()[i] == entries[i]);
        }
        assert(entries.drop_last()[last] == entries[last]);
        lemma_last_listing_entry_wins(entries.drop_last(), ext, last);
    }
}

/// Of two entries that list the same extension, the later one decides: the
/// rule of the extension comes from an entry that is not before it.
pub proof fn lemma_later_entry_wins<T>(
    entries: Seq<(Vec<String>, T)>,
    ext: Seq<char>,
    earlier: int,
    later: int,
)
    requires
        0 <= earlier < later < entries.len(),
        lists(entries[earlier], ext),
        lists(entries[later], ext),
    ensures
        rules_map(entries).contains_key(ext),
        exists|k: int|
            later <= k < entries.len() && lists(#[trigger] entries[k], ext) && rules_map(
                entries,
            )[ext] == entries[k].1,
    decreases entries.len(),
{
    let n = entries.len() - 1;
    if lists(entries[n], ext) {
        assert(later <= n && lists(entries[n], ext) && rules_map(entries)[ext] == entries[n].1);
    } else {
        assert(entries.drop_last()[earlier] == entries[earlier]);
        assert(entries.drop_last()[later] == entries[later]);
        lemma_later_entry_wins(entries.drop_last(), ext, earlier, later);
        let k = choose|k: int|
            later <= k < entries.drop_last().len() && lists(
                #[trigger] entries.drop_last()[k],
                ext,
            ) && rules_map(entries.drop_last())[ext] == entries.drop_last()[k].1;
        assert(entries.drop_last()[k] == entries[k]);
        assert(later <= k < entries.len() && lists(entries[k], ext) && rules_map(entries)[ext]
            == entries[k].1);
    }
}

/// The settings of a run.
pub struct Config {
    pub tested_program: FilePath,
    pub accepted_program: FilePath,
    pub data_generator: FilePath,
    pub test_cases: u32,
    pub test_threads: u32,
    pub ac_timeout: TimeSpan,
    pub program_timeout: TimeSpan,
    pub working_directory: FilePath,
    pub auto_remove_files: AutoRemoveFiles,
    pub output_filters: Vec<OutputFilter>,
    pub diff_tool: DiffTool,
    pub compilation_rules: ExtensionRules<CompilationConfig>,
    pub launch_rules: ExtensionRules<LaunchConfig>,
}

impl Config {
    /// The rule for compiling `program`: that of its extension, or none
    /// where it has no extension or its extension has no rule, and the
    /// program is launched as it is.
    pub fn compilation_rule(&self, program: &FilePath) -> (r: Option<&CompilationConfig>)
        ensures
            match program.extension {
                Some(ext) => match r {
                    Some(rule) => self.compilation_rules@.contains_key(ext@) && *rule
                        == self.compilation_rules@[ext@],
                    None => !self.compilation_rules@.contains_key(ext@),
                },
                None => r is None,
            },
    {
        match &program.extension {
            Some(ext) => self.compilation_rules.get_rule(ext),
            None => None,
        }
    }
}

/// The setting of the command line where it gives one, else that of the
/// configuration file.
pub open spec fn chosen<T>(cla: Option<T>, cf: T) -> T {
    match cla {
        Some(v) => v,
        None => cf,
    }
}

/// Index of the first of `names`, from index `i` on, that names no filter;
/// `names.len()` if each names one.
pub open spec fn first_unknown_filter(names: Seq<Seq<char>>, i: int) -> int
    decreases names.len() - i,
{
    if i < 0 || i >= names.len() {
        names.len() as int
    } else if OutputFilter::spec_try_from(names[i]) is Ok {
        first_unknown_filter(names, i + 1)
    } else {
        i
    }
}

/// The filters that `names` name, one for each.
pub open spec fn filters_named(names: Seq<Seq<char>>) -> Seq<OutputFilter> {
    Seq::new(names.len(), |i: int| OutputFilter::spec_try_from(names[i])->Ok_0)
}

/// The compilation rules of a configuration file, each with its extensions.
pub open spec fn compilation_entries(rules: Seq<cf_parsing::CompilationConfig>) -> Seq<
    (Vec<String>, CompilationConfig),
> {
    Seq::new(
        rules.len(),
        |i: int|
            (
                rules[i].ext,
                CompilationConfig {
                    target: rules[i].target,
                    optimize_flag: rules[i].optimize_flag,
                    command: rules[i].command,
                    args: rules[i].args,
                },
            ),
    )
}

/// The launch rules of a configuration file, each with its extensions.
pub open spec fn launch_entries(rules: Seq<cf_parsing::LaunchConfig>) -> Seq<
    (Vec<String>, LaunchConfig),
> {
    Seq::new(
        rules.len(),
        |i: int|
            (rules[i].ext, LaunchConfig { command: Some(rules[i].command), args: rules[i].args }),
    )
}

/// What is wrong with the settings, if anything: the first of a way to
/// remove files that is not known, a filter that is not known, a tool for
/// comparing that is not known, and a working directory that is the current
/// directory.
pub open spec fn spec_problem(cla: ClaConfig, cf: cf_parsing::Config) -> Option<Seq<char>> {
    let remove = AutoRemoveFiles::spec_try_from(
        chosen(cla.auto_remove_files, cf.default.auto_remove_files)@,
    );
    let names = views(chosen(cla.output_filters, cf.default.output_filters)@);
    let unknown = first_unknown_filter(names, 0);
    let tool = DiffTool::spec_try_from(views(chosen(cla.diff_tool, cf.default.diff_tool)@));
    if remove is Err {
        Some(remove->Err_0)
    } else if unknown < names.len() {
        Some(OutputFilter::spec_try_from(names[unknown])->Err_0)
    } else if tool is Err {
        Some(tool->Err_0)
    } else if chosen(cla.working_directory, cf.default.working_directory).is_current_dir {
        Some("Working directory shouldn't be current directory because it may be deleted."@)
    } else {
        None
    }
}

/// Whether `config` holds the settings that the command line and the
/// configuration file give together.
pub open spec fn integrates(config: Config, cla: ClaConfig, cf: cf_parsing::Config) -> bool {
    &&& config.tested_program == chosen(cla.tested_program, cf.default.tested_program)
    &&& config.accepted_program == chosen(cla.accepted_program, cf.default.accepted_program)
    &&& config.data_generator == chosen(cla.data_generator, cf.default.data_generator)
    &&& config.test_cases == chosen(cla.test_cases, cf.default.test_cases)
    &&& config.test_threads == chosen(cla.test_threads, cf.default.test_threads)
    &&& config.ac_timeout.nanos == chosen(cla.ac_timeout, cf.default.ac_timeout) * 1_000_000
    &&& config.program_timeout.nanos == chosen(cla.program_timeout, cf.default.program_timeout)
        * 1_000_000
    &&& config.working_directory == chosen(cla.working_directory, cf.default.working_directory)
    &&& AutoRemoveFiles::spec_try_from(
        chosen(cla.auto_remove_files, cf.default.auto_remove_files)@,
    ) == Ok::<AutoRemoveFiles, Seq<char>>(config.auto_remove_files)
    &&& config.output_filters@ == filters_named(
        views(chosen(cla.output_filters, cf.default.output_filters)@),
    )
    &&& DiffTool::spec_try_from(views(chosen(cla.diff_tool, cf.default.diff_tool)@)) == Ok::<
        DiffToolView,
        Seq<char>,
    >(config.diff_tool@)
    &&& config.compilation_rules@ == rules_map(compilation_entries(cf.compilation@))
    &&& config.launch_rules@ == rules_map(launch_entries(cf.launch@))
}

/// The error that says that the settings of `file_source` do not go
/// together, for the reason `msg`.
fn integrate_error(msg: String, file_source: &String) -> (r: Box<CheckerError>)
    ensures
        *r matches CheckerError::CfgIntegrateError { msg: m, file_source: f } && m@ == msg@ && f@
            == file_source@,
{
    Box::new(CheckerError::CfgIntegrateError { msg, file_source: file_source.clone() })
}

/// The settings of a run: those of the command line, and those of the
/// configuration file `cf_file` for what the command line leaves out.
///
/// Fails, with what is wrong and the name of the configuration file, where
/// a setting has a value that is not known or the working directory is the
/// current directory.
#[verifier::loop_isolation(false)]
pub fn get_config(cla_config: ClaConfig, cf_config: cf_parsing::Config, cf_file: String) -> (r:
    CheckerResult<Config>)
    ensures
        match spec_problem(cla_config, cf_config) {
            Some(problem) => r matches Err(e) && (*e matches CheckerError::CfgIntegrateError {
                msg,
                file_source,
            } && msg@ == problem && file_source@ == cf_file@),
            None => r matches Ok(config) && integrates(config, cla_config, cf_config),
        },
{
    let ClaConfig {
        tested_program: cla_tested_program,
        accepted_program: cla_accepted_program,
        data_generator: cla_data_generator,
        test_cases: cla_test_cases,
        test_threads: cla_test_threads,
        ac_timeout: cla_ac_timeout,
        program_timeout: cla_program_timeout,
        working_directory: cla_working_directory,
        auto_remove_files: cla_auto_remove_files,
        output_filters: cla_output_filters,
        diff_tool: cla_diff_tool,
    } = cla_config;
    let cf_parsing::Config { default, compilation, launch } = cf_config;
    let tested_program = match cla_tested_program {
        Some(v) => v,
        None => default.tested_program,
    };
    let accepted_program = match cla_accepted_program {
        Some(v) => v,
        None => default.accepted_program,
    };
    let data_generator = match cla_data_generator {
        Some(v) => v,
        None => default.data_generator,
    };
    let test_cases = match cla_test_cases {
        Some(v) => v,
        None => default.test_cases,
    };
    let test_threads = match cla_test_threads {
        Some(v) => v,
        None => default.test_threads,
    };
    let ac_timeout = TimeSpan::from_millis(
        match cla_ac_timeout {
            Some(v) => v,
            None => default.ac_timeout,
        },
    );
    let program_timeout = TimeSpan::from_millis(
        match cla_program_timeout {
            Some(v) => v,
            None => default.program_timeout,
        },
    );
    let working_directory = match cla_working_directory {
        Some(v) => v,
        None => default.working_directory,
    };
    let remove_name = match cla_auto_remove_files {
        Some(v) => v,
        None => default.auto_remove_files,
    };
    let auto_remove_files = match AutoRemoveFiles::try_from(remove_name.as_str()) {
        Ok(v) => v,
        Err(msg) => {
            return Err(integrate_error(msg, &cf_file));
        },
    };
    let filter_names = match cla_output_filters {
        Some(v) => v,
        None => default.output_filters,
    };
    let ghost names = views(filter_names@);
    let mut output_filters: Vec<OutputFilter> = Vec::new();
    let mut i: usize = 0;
    while i < filter_names.len()
        invariant
            i <= filter_names.len(),
            names == views(filter_names@),
            output_filters.len() == i,
            first_unknown_filter(names, 0) == first_unknown_filter(names, i as int),
            forall|k: int|
                0 <= k < i ==> OutputFilter::spec_try_from(names[k]) == Ok::<
                    OutputFilter,
                    Seq<char>,
                >(output_filters[k]),
        decreases filter_names.len() - i,
    {
        assert(names[i as int] == filter_names[i as int]@);
        match OutputFilter::try_from(filter_names[i].as_str()) {
            Ok(filter) => {
                output_filters.push(filter);
            },
            Err(msg) => {
                assert(OutputFilter::spec_try_from(names[i as int]) == Err::<
                    OutputFilter,
                    Seq<char>,
                >(msg@));
                assert(first_unknown_filter(names, i as int) == i);
                return Err(integrate_error(msg, &cf_file));
            },
        }
        i += 1;
    }
    assert(output_filters@ =~= filters_named(names));
    let tool_names = match cla_diff_tool {
        Some(v) => v,
        None => default.diff_tool,
    };
    let diff_tool = match DiffTool::try_from(tool_names) {
        Ok(v) => v,
        Err(msg) => {
            return Err(integrate_error(msg, &cf_file));
        },
    };
    let mut compilation_pairs: Vec<(Vec<String>, CompilationConfig)> = Vec::new();
    let ghost compilation_all = compilation@;
    for rule in it: compilation
        invariant
            it.seq() == compilation_all,
            compilation_pairs@ == compilation_entries(compilation_all.take(it.index() as int)),
    {
        let ghost done = it.index() as int;
        let cf_parsing::CompilationConfig { ext, target, optimize_flag, command, args } = rule;
        compilation_pairs.push((ext, CompilationConfig { target, optimize_flag, command, args }));
        assert(compilation_pairs@ =~= compilation_entries(compilation_all.take(done + 1)));
    }
    assert(compilation_all.take(compilation_all.len() as int) =~= compilation_all);
    let compilation_rules = ExtensionRules::from(compilation_pairs);
    let mut launch_pairs: Vec<(Vec<String>, LaunchConfig)> = Vec::new();
    let ghost launch_all = launch@;
    for rule in it: launch
        invariant
            it.seq() == launch_all,
            launch_pairs@ == launch_entries(launch_all.take(it.index() as int)),
    {
        let ghost done = it.index() as int;
        let cf_parsing::LaunchConfig { ext, command, args } = rule;
        launch_pairs.push((ext, LaunchConfig { command: Some(command), args }));
        assert(launch_pairs@ =~= launch_entries(launch_all.take(done + 1)));
    }
    assert(launch_all.take(launch_all.len() as int) =~= launch_all);
    let launch_rules = ExtensionRules::from(launch_pairs);
    if working_directory.is_current_dir {
        return Err(
            integrate_error(
                "Working directory shouldn't be current directory because it may be deleted.".to_owned(),
                &cf_file,
            ),
        );
    }
    Ok(
        Config {
            tested_program,
            accepted_program,
            data_generator,
            test_cases,
            test_threads,
            ac_timeout,
            program_timeout,
            working_directory,
            auto_remove_files,
            output_filters,
            diff_tool,
            compilation_rules,
            launch_rules,
        },
    )
}

} // verus!

