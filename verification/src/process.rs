//! The target process: how it is named, and the inventory of functions that
//! its executable image holds.

use vstd::prelude::*;
use vstd::string::*;
use std::path::PathBuf;
use crate::errors::{Error, ErrorModel};
use crate::image::{
    demangle_name, demangled, dynamic_tables, linked_libraries, parse_elf, parsed_elf,
    static_tables, strtab_names, symtab_entries, symtab_entry, RawSymbol, SymbolSource,
};
use crate::names::{lemma_one_more_item_gives_its_names, names_given, NameSet, RequiredFunctionSet};
use crate::text::{decimal, decimal_text};

verus! {

/// The ELF symbol type that marks a function.
pub const FUNCTION_SYMBOL_TYPE: u8 = 2;

/// How the operator names the target: by process identifier or by a part of
/// the path of its executable, one of the two and not both.
pub struct TargetArgs {
    pub exe_path: Option<String>,
    pub pid: Option<i32>,
}

/// The mathematical value of a [`TargetArgs`].
pub struct TargetSpec {
    pub exe_path: Option<Seq<char>>,
    pub pid: Option<i32>,
}

impl View for TargetArgs {
    type V = TargetSpec;

    open spec fn view(&self) -> TargetSpec {
        TargetSpec {
            exe_path: match self.exe_path {
                Some(path) => Some(path@),
                None => None,
            },
            pid: self.pid,
        }
    }
}

/// A target names exactly one of a process and an executable.
pub open spec fn names_a_target(target: TargetSpec) -> bool {
    (target.exe_path is Some) != (target.pid is Some)
}

/// Why a target that does not name exactly one of the two is refused: it
/// names neither, or it names both.
pub open spec fn target_refusal(target: TargetSpec) -> Seq<char> {
    if target.exe_path is None && target.pid is None {
        "Either OTEL_TARGET_EXE or OTEL_TARGET_PID must be set"@
    } else {
        "Only one of OTEL_TARGET_EXE and OTEL_TARGET_PID may be set"@
    }
}

impl TargetArgs {
    /// Accepts a target that names a process or an executable, and refuses
    /// one that names neither and one that names both.
    pub fn validate(&self) -> (outcome: Result<(), Error>)
        ensures
            names_a_target(self@) ==> outcome is Ok,
            !names_a_target(self@) ==> (outcome matches Err(error) && error@
                == ErrorModel::InvalidTarget(target_refusal(self@))),
    {
        if self.exe_path.is_none() && self.pid.is_none() {
            return Err(
                Error::InvalidTarget(
                    String::from_str("Either OTEL_TARGET_EXE or OTEL_TARGET_PID must be set"),
                ),
            );
        }
        if self.exe_path.is_some() && self.pid.is_some() {
            return Err(
                Error::InvalidTarget(
                    String::from_str("Only one of OTEL_TARGET_EXE and OTEL_TARGET_PID may be set"),
                ),
            );
        }
        Ok(())
    }
}

/// One function of the target's image.
#[derive(Debug, Clone)]
pub struct FunctionInfo {
    /// The name as the string table holds it.
    pub name: String,
    /// The readable form of the name.
    pub demangled_name: String,
    /// Virtual address of the function.
    pub address: u64,
    /// Size of the function in bytes.
    pub size: u64,
}

/// The mathematical value of a [`FunctionInfo`].
pub struct FunctionModel {
    pub name: Seq<char>,
    pub demangled_name: Seq<char>,
    pub address: u64,
    pub size: u64,
}

impl View for FunctionInfo {
    type V = FunctionModel;

    open spec fn view(&self) -> FunctionModel {
        FunctionModel {
            name: self.name@,
            demangled_name: self.demangled_name@,
            address: self.address,
            size: self.size,
        }
    }
}

/// What analysis found in the target: its functions, in table order, and the
/// shared libraries it links against.
#[derive(Debug)]
pub struct TargetDetails {
    pub pid: i32,
    pub exe_path: PathBuf,
    pub functions: Vec<FunctionInfo>,
    pub libraries: Vec<String>,
}

/// The mathematical value of a [`TargetDetails`].
pub struct TargetModel {
    pub pid: i32,
    pub exe_path: PathBuf,
    pub functions: Seq<FunctionModel>,
    pub libraries: Seq<Seq<char>>,
}

impl View for TargetDetails {
    type V = TargetModel;

    open spec fn view(&self) -> TargetModel {
        TargetModel {
            pid: self.pid,
            exe_path: self.exe_path,
            functions: function_models(self.functions@),
            libraries: texts(self.libraries@),
        }
    }
}

/// The values of a sequence of function records.
pub open spec fn function_models(functions: Seq<FunctionInfo>) -> Seq<FunctionModel> {
    functions.map_values(|f: FunctionInfo| f@)
}

/// The characters of each string of a sequence.
pub open spec fn texts(strings: Seq<String>) -> Seq<Seq<char>> {
    strings.map_values(|s: String| s@)
}

/// A symbol table entry counts only if it is a function of positive size.
pub open spec fn is_candidate(symbol: RawSymbol) -> bool {
    symbol.info & 0xf == FUNCTION_SYMBOL_TYPE && symbol.size > 0
}

/// The matching policy: the empty set asks for everything, any other set for
/// the entries whose raw or readable name it holds.
pub open spec fn is_wanted(relevant: Set<Seq<char>>, name: Seq<char>, readable: Seq<char>) -> bool {
    relevant == Set::<Seq<char>>::empty() || relevant.contains(name) || relevant.contains(readable)
}

/// The record that a named entry leaves in the inventory, if the policy wants it.
pub open spec fn matched_record(
    symbol: RawSymbol,
    name: Seq<char>,
    readable: Seq<char>,
    relevant: Set<Seq<char>>,
) -> Option<FunctionModel> {
    if is_wanted(relevant, name, readable) {
        Some(FunctionModel { name, demangled_name: readable, address: symbol.address, size: symbol.size })
    } else {
        None
    }
}

/// What one table entry contributes: nothing unless it is a candidate whose
/// name the string table resolves, and then what the policy keeps of it.
pub open spec fn selection(
    symbol: RawSymbol,
    names: Map<usize, Seq<char>>,
    relevant: Set<Seq<char>>,
) -> Option<FunctionModel> {
    if is_candidate(symbol) && names.contains_key(symbol.name_offset) {
        let name = names[symbol.name_offset];
        matched_record(symbol, name, demangled(name), relevant)
    } else {
        None
    }
}

/// The records that a whole table contributes, in table order.
pub open spec fn retained(
    symbols: Seq<RawSymbol>,
    names: Map<usize, Seq<char>>,
    relevant: Set<Seq<char>>,
) -> Seq<FunctionModel>
    decreases symbols.len(),
{
    if symbols.len() == 0 {
        Seq::empty()
    } else {
        let before = retained(symbols.drop_last(), names, relevant);
        match selection(symbols.last(), names, relevant) {
            Some(record) => before.push(record),
            None => before,
        }
    }
}

/// Every retained record comes from a table entry that is a function of
/// positive size: no entry of zero size, and none of another type, leaves a
/// record.
pub proof fn lemma_retained_come_from_functions(
    symbols: Seq<RawSymbol>,
    names: Map<usize, Seq<char>>,
    relevant: Set<Seq<char>>,
)
    ensures
        forall|i: int|
            0 <= i < retained(symbols, names, relevant).len() ==> {
                &&& (#[trigger] retained(symbols, names, relevant)[i]).size > 0
                &&& exists|j: int|
                    0 <= j < symbols.len() && is_candidate(#[trigger] symbols[j]) && selection(
                        symbols[j],
                        names,
                        relevant,
                    ) == Some(retained(symbols, names, relevant)[i])
            },
    decreases symbols.len(),
{
    if symbols.len() > 0 {
        let earlier = symbols.drop_last();
        lemma_retained_come_from_functions(earlier, names, relevant);
        let before = retained(earlier, names, relevant);
        let all = retained(symbols, names, relevant);
        assert forall|i: int| 0 <= i < all.len() implies {
            &&& (#[trigger] all[i]).size > 0
            &&& exists|j: int|
                0 <= j < symbols.len() && is_candidate(#[trigger] symbols[j]) && selection(
                    symbols[j],
                    names,
                    relevant,
                ) == Some(all[i])
        } by {
            if i < before.len() {
                assert(all[i] == before[i]);
                let j = choose|j: int|
                    0 <= j < earlier.len() && is_candidate(#[trigger] earlier[j]) && selection(
                        earlier[j],
                        names,
                        relevant,
                    ) == Some(before[i]);
                assert(symbols[j] == earlier[j]);
            } else {
                let j = symbols.len() - 1;
                assert(selection(symbols[j], names, relevant) == Some(all[i]));
            }
        }
    }
}

/// Every record that an entry selects is retained.
pub proof fn lemma_selected_are_retained(
    symbols: Seq<RawSymbol>,
    names: Map<usize, Seq<char>>,
    relevant: Set<Seq<char>>,
)
    ensures
        forall|j: int|
            0 <= j < symbols.len() && selection(#[trigger] symbols[j], names, relevant) is Some
                ==> retained(symbols, names, relevant).contains(
                selection(symbols[j], names, relevant).unwrap(),
            ),
    decreases symbols.len(),
{
    if symbols.len() > 0 {
        let earlier = symbols.drop_last();
        lemma_selected_are_retained(earlier, names, relevant);
        let before = retained(earlier, names, relevant);
        let all = retained(symbols, names, relevant);
        assert forall|j: int|
            0 <= j < symbols.len() && selection(
                #[trigger] symbols[j],
                names,
                relevant,
            ) is Some implies all.contains(selection(symbols[j], names, relevant).unwrap()) by {
            let record = selection(symbols[j], names, relevant).unwrap();
            if j < earlier.len() {
                assert(earlier[j] == symbols[j]);
                assert(before.contains(record));
                let i = choose|i: int| 0 <= i < before.len() && before[i] == record;
                assert(all[i] == record);
            } else {
                assert(all[all.len() - 1] == record);
            }
        }
    }
}

/// The matching policy, for an entry that is a function of positive size
/// with a name that the string table resolves. With the empty set the
/// entry's record is retained. With any other set it is retained if and
/// only if the set holds the entry's raw name or its readable name.
pub proof fn lemma_matching_policy(
    symbols: Seq<RawSymbol>,
    names: Map<usize, Seq<char>>,
    relevant: Set<Seq<char>>,
    j: int,
)
    requires
        0 <= j < symbols.len(),
        is_candidate(symbols[j]),
        names.contains_key(symbols[j].name_offset),
    ensures
        ({
            let name = names[symbols[j].name_offset];
            let record = FunctionModel {
                name,
                demangled_name: demangled(name),
                address: symbols[j].address,
                size: symbols[j].size,
            };
            &&& relevant == Set::<Seq<char>>::empty() ==> retained(symbols, names, relevant).contains(
                record,
            )
            &&& relevant != Set::<Seq<char>>::empty() ==> (retained(
                symbols,
                names,
                relevant,
            ).contains(record) <==> relevant.contains(name) || relevant.contains(demangled(name)))
        }),
{
    let name = names[symbols[j].name_offset];
    let record = FunctionModel {
        name,
        demangled_name: demangled(name),
        address: symbols[j].address,
        size: symbols[j].size,
    };
    let all = retained(symbols, names, relevant);
    lemma_selected_are_retained(symbols, names, relevant);
    lemma_retained_come_from_functions(symbols, names, relevant);
    if is_wanted(relevant, name, demangled(name)) {
        assert(selection(symbols[j], names, relevant) == Some(record));
    }
    if all.contains(record) {
        let i = choose|i: int| 0 <= i < all.len() && all[i] == record;
        let k = choose|k: int|
            0 <= k < symbols.len() && is_candidate(#[trigger] symbols[k]) && selection(
                symbols[k],
                names,
                relevant,
            ) == Some(all[i]);
        assert(is_wanted(relevant, record.name, record.demangled_name));
    }
}

/// The readable names of an inventory.
pub open spec fn demangled_names(functions: Seq<FunctionModel>) -> Set<Seq<char>> {
    Set::new(
        |name: Seq<char>|
            exists|i: int| 0 <= i < functions.len() && (#[trigger] functions[i]).demangled_name == name,
    )
}

impl TargetDetails {
    /// The readable names of the inventory, as a set.
    pub fn function_names(&self) -> (names: NameSet)
        ensures
            names@ == demangled_names(self@.functions),
    {
        let ghost models = function_models(self.functions@);
        let mut names = NameSet::new();
        let mut index: usize = 0;
        assert(names@ =~= demangled_names(models.take(0)));
        while index < self.functions.len()
            invariant
                index <= self.functions.len(),
                models == function_models(self.functions@),
                names@ == demangled_names(models.take(index as int)),
            decreases self.functions.len() - index,
        {
            names.insert(self.functions[index].demangled_name.clone());
            proof {
                let gives = |f: FunctionModel, name: Seq<char>| f.demangled_name == name;
                lemma_one_more_item_gives_its_names(models, gives, index as int);
                assert(demangled_names(models.take(index as int)) =~= names_given(
                    models.take(index as int),
                    gives,
                ));
                assert(demangled_names(models.take(index + 1)) =~= names_given(
                    models.take(index + 1),
                    gives,
                ));
                assert(names@ =~= demangled_names(models.take(index + 1)));
            }
            index = index + 1;
        }
        assert(models.take(index as int) =~= models);
        names
    }
}

/// What can go wrong between a process identifier and the bytes of its image.
#[derive(Debug, Clone, Copy, PartialEq, Eq, Structural)]
pub enum ImageStep {
    /// Looking the process up in the process table.
    Lookup,
    /// Reading the path of the executable.
    ExecutablePath,
    /// Opening the executable.
    Open,
    /// Mapping the executable into memory.
    MemoryMap,
}

/// The error that ends the analysis when `step` fails for the process `pid`
/// and the system gives `reason`. A process that is gone is
/// `ProcessNotFound`; every other failure is `BinaryAnalysis`.
pub open spec fn image_failure_of(step: ImageStep, pid: i32, reason: Seq<char>) -> ErrorModel {
    match step {
        ImageStep::Lookup => ErrorModel::ProcessNotFound(
            "PID "@ + decimal(pid as int) + " not found: "@ + reason,
        ),
        ImageStep::ExecutablePath => ErrorModel::BinaryAnalysis("Failed to get exe path: "@ + reason),
        ImageStep::Open => ErrorModel::BinaryAnalysis("Failed to open binary: "@ + reason),
        ImageStep::MemoryMap => ErrorModel::BinaryAnalysis("Failed to mmap binary: "@ + reason),
    }
}

/// Reads the executable image of a resolved process.
pub struct Analyzer;

impl Analyzer {
    pub fn new() -> (analyzer: Self) {
        Analyzer
    }

    /// The error that ends the analysis when the image of the process `pid`
    /// cannot be had: `step` failed, and the system gave `reason`.
    pub fn image_failure(step: ImageStep, pid: i32, reason: &str) -> (error: Error)
        ensures
            error@ == image_failure_of(step, pid, reason@),
    {
        match step {
            ImageStep::Lookup => {
                let number = decimal_text(pid);
                Error::ProcessNotFound(
                    String::from_str("PID ").concat(number.as_str()).concat(" not found: ").concat(
                        reason,
                    ),
                )
            },
            ImageStep::ExecutablePath => Error::BinaryAnalysis(
                String::from_str("Failed to get exe path: ").concat(reason),
            ),
            ImageStep::Open => Error::BinaryAnalysis(
                String::from_str("Failed to open binary: ").concat(reason),
            ),
            ImageStep::MemoryMap => Error::BinaryAnalysis(
                String::from_str("Failed to mmap binary: ").concat(reason),
            ),
        }
    }

    /// Whether a table entry is a function of positive size.
    pub fn is_function_symbol(symbol: &RawSymbol) -> (candidate: bool)
        ensures
            candidate == is_candidate(*symbol),
    {
        goblin::elf::sym::st_type(symbol.info) == FUNCTION_SYMBOL_TYPE && symbol.size > 0
    }

    /// Applies the matching policy to a candidate entry whose raw name is
    /// `name` and whose readable name is `readable`.
    pub fn match_symbol(
        symbol: &RawSymbol,
        name: &str,
        readable: String,
        relevant: &RequiredFunctionSet,
    ) -> (record: Option<FunctionInfo>)
        ensures
            match record {
                Some(info) => matched_record(*symbol, name@, readable@, relevant@) == Some(info@),
                None => matched_record(*symbol, name@, readable@, relevant@) is None,
            },
    {
        let wanted = relevant.is_empty() || relevant.contains(name) || relevant.contains(
            readable.as_str(),
        );
        if wanted {
            Some(
                FunctionInfo {
                    name: name.to_owned(),
                    demangled_name: readable,
                    address: symbol.address,
                    size: symbol.size,
                },
            )
        } else {
            None
        }
    }

    /// Appends to `functions` what one symbol table contributes.
    pub fn collect_functions(
        source: &SymbolSource,
        relevant: &RequiredFunctionSet,
        functions: &mut Vec<FunctionInfo>,
    )
        ensures
            function_models(final(functions)@) == function_models(old(functions)@) + retained(
                symtab_entries(source.symbols),
                strtab_names(source.strings),
                relevant@,
            ),
    {
        let ghost symbols = symtab_entries(source.symbols);
        let ghost names = strtab_names(source.strings);
        let ghost before = function_models(functions@);
        let count = source.symbols.len();
        let mut index: usize = 0;
        assert(symbols.take(0) =~= Seq::<RawSymbol>::empty());
        assert(before + retained(symbols.take(0), names, relevant@) =~= before);
        while index < count
            invariant
                index <= count,
                count == symbols.len(),
                symbols == symtab_entries(source.symbols),
                names == strtab_names(source.strings),
                function_models(functions@) == before + retained(
                    symbols.take(index as int),
                    names,
                    relevant@,
                ),
            decreases count - index,
        {
            let ghost sofar = retained(symbols.take(index as int), names, relevant@);
            proof {
                let next = symbols.take(index + 1);
                assert(next.drop_last() =~= symbols.take(index as int));
                assert(next.last() == symbols[index as int]);
            }
            match symtab_entry(source.symbols, index) {
                Some(symbol) => {
                    if Self::is_function_symbol(&symbol) {
                        match source.strings.get_at(symbol.name_offset) {
                            Some(name) => {
                                let readable = demangle_name(name);
                                match Self::match_symbol(&symbol, name, readable, relevant) {
                                    Some(info) => {
                                        let ghost held = functions@;
                                        functions.push(info);
                                        assert(function_models(functions@) =~= function_models(held).push(info@));
                                        assert(before + sofar.push(info@) =~= (before + sofar).push(info@));
                                    },
                                    None => {},
                                }
                            },
                            None => {},
                        }
                    }
                },
                None => {},
            }
            index = index + 1;
        }
        assert(symbols.take(count as int) =~= symbols);
    }

    /// Builds the inventory of the process `pid` from the bytes of its
    /// executable image, which the caller read from `exe_path`.
    ///
    /// The image is parsed as ELF; an image that does not parse ends the
    /// analysis. The inventory lists the linked libraries as the image names
    /// them, then the functions of the static symbol table followed by those
    /// of the dynamic one, each table in its own order.
    pub fn analyze(
        &self,
        pid: i32,
        exe_path: PathBuf,
        image: &[u8],
        relevant_funcs: RequiredFunctionSet,
    ) -> (outcome: Result<TargetDetails, Error>)
        ensures
            match parsed_elf(image@) {
                Ok(model) => outcome matches Ok(details) && details@ == (TargetModel {
                    pid,
                    exe_path,
                    functions: retained(model.static_symbols, model.static_names, relevant_funcs@)
                        + retained(model.dynamic_symbols, model.dynamic_names, relevant_funcs@),
                    libraries: model.libraries,
                }),
                Err(reason) => outcome matches Err(error) && error@ == ErrorModel::BinaryAnalysis(
                    "Failed to parse ELF: "@ + reason,
                ),
            },
    {
        match parse_elf(image) {
            Err(reason) => {
                let message = String::from_str("Failed to parse ELF: ").concat(reason.as_str());
                Err(Error::BinaryAnalysis(message))
            },
            Ok(elf) => {
                let libraries = linked_libraries(&elf);
                let mut functions: Vec<FunctionInfo> = Vec::new();
                assert(function_models(functions@) =~= Seq::<FunctionModel>::empty());
                let table = static_tables(&elf);
                Self::collect_functions(&table, &relevant_funcs, &mut functions);
                let table = dynamic_tables(&elf);
                Self::collect_functions(&table, &relevant_funcs, &mut functions);
                let details = TargetDetails { pid, exe_path, functions, libraries };
                proof {
                    let model = parsed_elf(image@)->Ok_0;
                    assert(details@.libraries =~= model.libraries);
                    assert(details@.functions =~= retained(
                        model.static_symbols,
                        model.static_names,
                        relevant_funcs@,
                    ) + retained(model.dynamic_symbols, model.dynamic_names, relevant_funcs@));
                }
                Ok(details)
            },
        }
    }
}

} // verus!
