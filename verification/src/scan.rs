//! The scan of a whole module: the memory image is built once, every
//! function body is interpreted against it, and the names that the calls
//! reveal come out in ascending order, each once.

use crate::classify::accepts;
use crate::decode::{decode_module, module_of, DecodeError};
use crate::instr::Instr;
use crate::interp::{
    analyze_function, found_in_function, name_found_at, setting_of, standard_rules, ScanConfig,
    ScanRules, Setting,
};
use crate::memory::{build_memory_map, image_of};
use crate::module::{Module, ModuleView};
use crate::names::{bytes_of, is_ascending, lemma_ascending_unique, NameSet};
use vstd::prelude::*;

verus! {

/// The setting in which the function bodies of `module` are interpreted.
pub open spec fn module_setting(module: ModuleView, rules: ScanRules) -> Setting {
    setting_of(module.globals, image_of(module.segments), rules)
}

/// Whether one of the first `n` function bodies of the module reveals `name`.
pub open spec fn revealed_by_first(
    module: ModuleView,
    rules: ScanRules,
    n: int,
    name: Seq<u8>,
) -> bool {
    exists|f: int|
        0 <= f < n && f < module.functions.len() && found_in_function(
            module_setting(module, rules),
            #[trigger] module.functions[f],
            name,
        )
}

/// Whether a function body of the module reveals `name`.
pub open spec fn reveals(module: ModuleView, rules: ScanRules, name: Seq<u8>) -> bool {
    revealed_by_first(module, rules, module.functions.len() as int, name)
}

/// Whether `names` is the report of a scan of `module`: the names that the
/// module reveals, each once, in ascending order.
pub open spec fn is_report(module: ModuleView, rules: ScanRules, names: Seq<Seq<u8>>) -> bool {
    &&& is_ascending(names)
    &&& forall|name: Seq<u8>| #[trigger] names.contains(name) <==> reveals(module, rules, name)
}

/// A module has one report: two scans of the same module with the same
/// configuration yield the same list, whatever way they found the names.
pub proof fn lemma_report_unique(
    module: ModuleView,
    config: ScanRules,
    first: Seq<Seq<u8>>,
    second: Seq<Seq<u8>>,
)
    requires
        is_report(module, config, first),
        is_report(module, config, second),
    ensures
        first == second,
{
    assert forall|name: Seq<u8>| first.contains(name) <==> second.contains(name) by {
        assert(first.contains(name) <==> reveals(module, config, name));
        assert(second.contains(name) <==> reveals(module, config, name));
    }
    lemma_ascending_unique(first, second);
}

/// The report does not depend on the order of the function bodies: two
/// modules with the same segments and globals whose bodies are the same up
/// to their order have the same report.
pub proof fn lemma_report_ignores_order(
    module: ModuleView,
    other: ModuleView,
    config: ScanRules,
    first: Seq<Seq<u8>>,
    second: Seq<Seq<u8>>,
)
    requires
        module.segments == other.segments,
        module.globals == other.globals,
        forall|f: int|
            0 <= f < module.functions.len() ==> other.functions.contains(
                #[trigger] module.functions[f],
            ),
        forall|g: int|
            0 <= g < other.functions.len() ==> module.functions.contains(
                #[trigger] other.functions[g],
            ),
        is_report(module, config, first),
        is_report(other, config, second),
    ensures
        first == second,
{
    assert forall|name: Seq<u8>| first.contains(name) <==> second.contains(name) by {
        assert(first.contains(name) <==> reveals(module, config, name));
        assert(second.contains(name) <==> reveals(other, config, name));
        if reveals(module, config, name) {
            let f = choose|f: int|
                0 <= f < module.functions.len() && found_in_function(
                    module_setting(module, config),
                    #[trigger] module.functions[f],
                    name,
                );
            assert(other.functions.contains(module.functions[f]));
            let g = choose|g: int|
                0 <= g < other.functions.len() && other.functions[g] == module.functions[f];
            assert(reveals(other, config, name));
        }
        if reveals(other, config, name) {
            let g = choose|g: int|
                0 <= g < other.functions.len() && found_in_function(
                    module_setting(other, config),
                    #[trigger] other.functions[g],
                    name,
                );
            assert(module.functions.contains(other.functions[g]));
            let f = choose|f: int|
                0 <= f < module.functions.len() && module.functions[f] == other.functions[g];
            assert(reveals(module, config, name));
        }
    }
    lemma_ascending_unique(first, second);
}

/// Every name that a function body reveals has passed the classifier.
pub proof fn lemma_found_is_accepted(setting: Setting, code: Seq<Instr>, name: Seq<u8>)
    requires
        found_in_function(setting, code, name),
    ensures
        accepts(setting.table, name),
{
    let at = choose|at: int| #[trigger] name_found_at(setting, code, at) == Some(name);
}

/// Every name of a report has passed the classifier.
pub proof fn lemma_report_is_accepted(
    module: ModuleView,
    config: ScanRules,
    names: Seq<Seq<u8>>,
    i: int,
)
    requires
        is_report(module, config, names),
        0 <= i < names.len(),
    ensures
        accepts(config.table, names[i]),
{
    let name = names[i];
    assert(names.contains(name));
    assert(reveals(module, config, name));
    let f = choose|f: int|
        0 <= f < module.functions.len() && found_in_function(
            module_setting(module, config),
            #[trigger] module.functions[f],
            name,
        );
    lemma_found_is_accepted(module_setting(module, config), module.functions[f], name);
}

/// Collects the names that the function bodies of `module` reveal.
pub fn collect_names(module: &Module, config: &ScanConfig) -> (env_vars: NameSet)
    ensures
        env_vars.wf(),
        is_report(module@, config@, env_vars@),
{
    let memory = build_memory_map(module.segments.as_slice());
    let mut env_vars = NameSet::new();
    let mut f: usize = 0;
    while f < module.functions.len()
        invariant
            f <= module.functions.len(),
            env_vars.wf(),
            memory@ == image_of(module@.segments),
            forall|name: Seq<u8>|
                #![trigger env_vars@.contains(name)]
                env_vars@.contains(name) <==> revealed_by_first(module@, config@, f as int, name),
        decreases module.functions.len() - f,
    {
        let ghost held = env_vars@;
        analyze_function(
            module.functions[f].as_slice(),
            module.globals.as_slice(),
            &memory,
            config,
            &mut env_vars,
        );
        proof {
            let setting = module_setting(module@, config@);
            assert(module@.functions[f as int] == module.functions@[f as int]@);
            assert forall|name: Seq<u8>|
                #![trigger env_vars@.contains(name)]
                env_vars@.contains(name) <==> revealed_by_first(
                    module@,
                    config@,
                    f + 1,
                    name,
                ) by {
                assert(held.contains(name) <==> revealed_by_first(module@, config@, f as int, name));
                let here = found_in_function(setting, module@.functions[f as int], name);
                if revealed_by_first(module@, config@, f + 1, name) {
                    let g = choose|g: int|
                        0 <= g < f + 1 && g < module@.functions.len() && found_in_function(
                            setting,
                            #[trigger] module@.functions[g],
                            name,
                        );
                    if g < f {
                        assert(revealed_by_first(module@, config@, f as int, name));
                    }
                }
                if revealed_by_first(module@, config@, f as int, name) {
                    let g = choose|g: int|
                        0 <= g < f && g < module@.functions.len() && found_in_function(
                            setting,
                            #[trigger] module@.functions[g],
                            name,
                        );
                    assert(revealed_by_first(module@, config@, f + 1, name));
                }
                if here {
                    assert(revealed_by_first(module@, config@, f + 1, name));
                }
            }
        }
        f = f + 1;
    }
    env_vars
}

/// Scans a decoded module: the names that it reveals, in ascending order.
pub fn scan_module(module: &Module, config: &ScanConfig) -> (names: Vec<String>)
    ensures
        is_report(module@, config@, bytes_of(names@)),
{
    collect_names(module, config).into_sorted()
}

/// Whether `outcome` is what a scan of `bytes` yields: the report of the
/// module that the bytes hold, or the error that its decoding ends with.
pub open spec fn is_scan_of(
    bytes: Seq<u8>,
    rules: ScanRules,
    outcome: Result<Seq<Seq<u8>>, DecodeError>,
) -> bool {
    match module_of(bytes) {
        Ok(m) => outcome matches Ok(names) && is_report(m, rules, names),
        Err(error) => outcome matches Err(failure) && failure == error,
    }
}

/// The bytes fix the outcome: two scans of the same bytes with the same
/// rules both fail with the same error, or both yield the same list.
pub proof fn lemma_scan_deterministic(
    bytes: Seq<u8>,
    rules: ScanRules,
    first: Result<Seq<Seq<u8>>, DecodeError>,
    second: Result<Seq<Seq<u8>>, DecodeError>,
)
    requires
        is_scan_of(bytes, rules, first),
        is_scan_of(bytes, rules, second),
    ensures
        first == second,
{
    if let Ok(m) = module_of(bytes) {
        lemma_report_unique(m, rules, first->Ok_0, second->Ok_0);
    }
}

/// Decodes a module and collects the names that it reveals: the report of
/// the module that the bytes hold, or the error of its decoding.
pub fn detect_env_vars(wasm_bytes: &[u8], config: &ScanConfig) -> (found: Result<
    NameSet,
    DecodeError,
>)
    ensures
        match module_of(wasm_bytes@) {
            Ok(m) => found matches Ok(env_vars) && env_vars.wf() && is_report(
                m,
                config@,
                env_vars@,
            ),
            Err(error) => found matches Err(failure) && failure == error,
        },
{
    match decode_module(wasm_bytes) {
        Ok(module) => Ok(collect_names(&module, config)),
        Err(error) => Err(error),
    }
}

/// Scans the bytes of a module with the standard configuration: the names
/// that the module reveals in ascending order, each once, or the error of a
/// module that cannot be decoded.
pub fn scan_wasm_bytes(wasm_bytes: &[u8]) -> (scanned: Result<Vec<String>, DecodeError>)
    ensures
        is_scan_of(
            wasm_bytes@,
            standard_rules(),
            match scanned {
                Ok(names) => Ok(bytes_of(names@)),
                Err(error) => Err(error),
            },
        ),
{
    let config = ScanConfig::standard();
    match detect_env_vars(wasm_bytes, &config) {
        Ok(env_vars) => Ok(env_vars.into_sorted()),
        Err(error) => Err(error),
    }
}

} // verus!
