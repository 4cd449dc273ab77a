//! The instrumentors and the manager that owns them.

use vstd::prelude::*;
use crate::errors::Error;
use crate::events::{
    event_models, pipeline_action, production_after, Event, EventModel, PipelineAction,
    PipelineEvent, Production,
};
use crate::hyper_instrumentor::{hyper_functions, hyper_library, HyperInstrumentor};
use crate::names::{lemma_one_more_item_gives_its_names, names_given, NameSet, RequiredFunctionSet};
use crate::process::{demangled_names, texts, TargetDetails};

verus! {

/// What an instrumentor of one library offers: the name of the library, the
/// functions it observes, and its life from `load` through `run` to `close`.
pub trait Instrumentor: Send + Sync {
    /// The name of the library that this instrumentor observes.
    fn library_name(&self) -> &str;

    /// The readable names of the functions that this instrumentor observes.
    fn func_names(&self) -> Vec<&str>;

    /// Prepares the instrumentor for the analysed target. Where none of its
    /// functions is present this does nothing.
    fn load(&mut self, target: &TargetDetails) -> Result<(), Error>;

    /// Hands out the events observed since the last call, in the order in
    /// which they were observed. An empty list says that nothing is left to
    /// observe.
    fn run(&self) -> Result<Vec<Event>, Error>;

    /// Releases what `load` prepared.
    fn close(&mut self);
}

/// What the manager keeps of an instrumentor: the name of its library, the
/// functions it declared when it was registered, and whether the manager
/// has loaded it and not closed it since.
pub struct PluginModel {
    pub library: Seq<char>,
    pub functions: Seq<Seq<char>>,
    pub loaded: bool,
}

/// An instrumentor in the manager's keeping, with what it declared and
/// where it stands between `load` and `close`.
struct Registration {
    library: String,
    functions: Vec<String>,
    loaded: bool,
    instrumentor: Box<dyn Instrumentor>,
}

impl View for Registration {
    type V = PluginModel;

    closed spec fn view(&self) -> PluginModel {
        PluginModel { library: self.library@, functions: texts(self.functions@), loaded: self.loaded }
    }
}

/// The instrumentor after a successful `load`.
pub open spec fn as_loaded(plugin: PluginModel) -> PluginModel {
    PluginModel { library: plugin.library, functions: plugin.functions, loaded: true }
}

/// The instrumentor after `close`.
pub open spec fn as_closed(plugin: PluginModel) -> PluginModel {
    PluginModel { library: plugin.library, functions: plugin.functions, loaded: false }
}

/// The instrumentors after the first `count` of them have been loaded.
pub open spec fn loaded_through(plugins: Seq<PluginModel>, count: int) -> Seq<PluginModel> {
    Seq::new(
        plugins.len(),
        |i: int|
            if i < count {
                as_loaded(plugins[i])
            } else {
                plugins[i]
            },
    )
}

/// The instrumentors after all of them have been closed.
pub open spec fn all_closed(plugins: Seq<PluginModel>) -> Seq<PluginModel> {
    Seq::new(plugins.len(), |i: int| as_closed(plugins[i]))
}

/// Whether no instrumentor is loaded.
pub open spec fn none_loaded(plugins: Seq<PluginModel>) -> bool {
    forall|i: int| 0 <= i < plugins.len() ==> !(#[trigger] plugins[i]).loaded
}

impl Registration {
    /// Takes an instrumentor into keeping under what it declared. It is
    /// not loaded yet.
    fn new(library: String, functions: Vec<String>, instrumentor: Box<dyn Instrumentor>) -> (kept: Self)
        ensures
            kept@ == (PluginModel { library: library@, functions: texts(functions@), loaded: false }),
    {
        Registration { library, functions, loaded: false, instrumentor }
    }

    /// Hands the registration back as it is. Verus takes what a call
    /// returns for a well-formed value; of a registration that it has just
    /// seen put together around a trait object it cannot tell that, and
    /// then knows nothing of a vector that holds it.
    fn settled(self) -> (same: Self)
        ensures
            same === self,
    {
        self
    }

    /// Has the instrumentor prepare for `target`, and records what it
    /// answers.
    fn load(&mut self, target: &TargetDetails) -> (outcome: Result<(), Error>)
        ensures
            outcome is Ok ==> final(self)@ == as_loaded(old(self)@),
            outcome is Err ==> final(self)@ == old(self)@,
    {
        let answer = self.instrumentor.load(target);
        self.record_load(answer)
    }

    /// Records what the instrumentor answered to `load`: after success it
    /// is loaded from now on; after a failure nothing is recorded. The
    /// answer is handed on as it came. What the instrumentor declared stays
    /// as it was registered.
    fn record_load(&mut self, answer: Result<(), Error>) -> (outcome: Result<(), Error>)
        ensures
            match answer {
                Ok(_) => outcome is Ok && final(self)@ == as_loaded(old(self)@),
                Err(error) => (outcome matches Err(same) && same@ == error@)
                    && final(self)@ == old(self)@,
            },
    {
        match answer {
            Ok(()) => {
                self.loaded = true;
                Ok(())
            },
            Err(error) => Err(error),
        }
    }

    /// Asks the instrumentor for the events it has observed. One that is
    /// not loaded is not asked and has observed nothing.
    fn run(&self) -> (outcome: Result<Vec<Event>, Error>)
        ensures
            !self@.loaded ==> (outcome matches Ok(events) && events@.len() == 0),
    {
        if self.loaded {
            self.instrumentor.run()
        } else {
            Ok(Vec::new())
        }
    }

    /// Has a loaded instrumentor release what it prepared; it is not loaded
    /// afterwards. One that is not loaded has nothing to release. What it
    /// declared stays as it was registered.
    fn close(&mut self)
        ensures
            final(self)@ == as_closed(old(self)@),
    {
        if self.loaded {
            self.instrumentor.close();
            self.loaded = false;
        }
    }

    /// Adds every declared name to `set`.
    fn add_names_to(&self, set: &mut NameSet)
        ensures
            final(set)@ == old(set)@.union(names_of(self@.functions)),
    {
        let ghost before = set@;
        let ghost declared = texts(self.functions@);
        let mut index: usize = 0;
        assert(set@ =~= before.union(names_of(declared.take(0))));
        while index < self.functions.len()
            invariant
                index <= self.functions.len(),
                declared == texts(self.functions@),
                set@ == before.union(names_of(declared.take(index as int))),
            decreases self.functions.len() - index,
        {
            let name = self.functions[index].clone();
            set.insert(name);
            proof {
                let gives = |declared: Seq<char>, name: Seq<char>| declared == name;
                lemma_one_more_item_gives_its_names(declared, gives, index as int);
                assert(names_of(declared.take(index as int)) =~= names_given(
                    declared.take(index as int),
                    gives,
                ));
                assert(names_of(declared.take(index + 1)) =~= names_given(
                    declared.take(index + 1),
                    gives,
                ));
                assert(set@ =~= before.union(names_of(declared.take(index + 1))));
            }
            index = index + 1;
        }
        assert(declared.take(index as int) =~= declared);
    }

    /// How many of the declared names are in `present`.
    fn count_in(&self, present: &NameSet) -> (found: usize)
        ensures
            found == count_present(self@.functions, present@),
    {
        let ghost declared = texts(self.functions@);
        let mut found: usize = 0;
        let mut index: usize = 0;
        assert(declared.take(0) =~= Seq::<Seq<char>>::empty());
        while index < self.functions.len()
            invariant
                index <= self.functions.len(),
                declared == texts(self.functions@),
                found <= index,
                found == count_present(declared.take(index as int), present@),
            decreases self.functions.len() - index,
        {
            proof {
                let longer = declared.take(index + 1);
                assert(longer.drop_last() =~= declared.take(index as int));
                assert(longer.last() == declared[index as int]);
            }
            if present.contains(self.functions[index].as_str()) {
                found = found + 1;
            }
            index = index + 1;
        }
        assert(declared.take(index as int) =~= declared);
        found
    }
}

/// How much of what an instrumentor declared the target holds.
#[derive(Debug, Clone)]
pub struct InstrumentorMatch {
    /// The library of the instrumentor.
    pub library: String,
    /// How many of the declared functions are in the inventory.
    pub found: usize,
    /// How many functions the instrumentor declared.
    pub total: usize,
}

/// The mathematical value of an [`InstrumentorMatch`].
pub struct MatchModel {
    pub library: Seq<char>,
    pub found: nat,
    pub total: nat,
}

impl View for InstrumentorMatch {
    type V = MatchModel;

    open spec fn view(&self) -> MatchModel {
        MatchModel { library: self.library@, found: self.found as nat, total: self.total as nat }
    }
}

impl InstrumentorMatch {
    /// Whether the instrumentor has nothing to observe in the target. Such
    /// an instrumentor is reported, and stays registered.
    pub fn is_unmatched(&self) -> (unmatched: bool)
        ensures
            unmatched == (self@.found == 0),
    {
        self.found == 0
    }
}

/// The values of a report.
pub open spec fn match_models(report: Seq<InstrumentorMatch>) -> Seq<MatchModel> {
    report.map_values(|m: InstrumentorMatch| m@)
}

/// Every name that some instrumentor declared.
pub open spec fn declared_names(plugins: Seq<PluginModel>) -> Set<Seq<char>> {
    Set::new(
        |name: Seq<char>|
            exists|i: int| 0 <= i < plugins.len() && (#[trigger] plugins[i]).functions.contains(name),
    )
}

/// The names that occur in a list.
pub open spec fn names_of(functions: Seq<Seq<char>>) -> Set<Seq<char>> {
    Set::new(|name: Seq<char>| functions.contains(name))
}

/// How many of `names` are in `present`; a name declared twice counts twice.
pub open spec fn count_present(names: Seq<Seq<char>>, present: Set<Seq<char>>) -> nat
    decreases names.len(),
{
    if names.len() == 0 {
        0
    } else {
        count_present(names.drop_last(), present) + if present.contains(names.last()) {
            1nat
        } else {
            0nat
        }
    }
}

/// The report on one instrumentor.
pub open spec fn match_of(plugin: PluginModel, present: Set<Seq<char>>) -> MatchModel {
    MatchModel {
        library: plugin.library,
        found: count_present(plugin.functions, present),
        total: plugin.functions.len(),
    }
}

/// The report on every instrumentor, in the manager's order.
pub open spec fn match_report(plugins: Seq<PluginModel>, present: Set<Seq<char>>) -> Seq<MatchModel> {
    Seq::new(plugins.len(), |i: int| match_of(plugins[i], present))
}

/// An instrumentor finds nothing exactly when none of the names it declared
/// is in the inventory.
pub proof fn lemma_nothing_found_means_no_overlap(names: Seq<Seq<char>>, present: Set<Seq<char>>)
    ensures
        count_present(names, present) <= names.len(),
        count_present(names, present) == 0 <==> forall|k: int|
            0 <= k < names.len() ==> !present.contains(#[trigger] names[k]),
    decreases names.len(),
{
    if names.len() > 0 {
        let earlier = names.drop_last();
        lemma_nothing_found_means_no_overlap(earlier, present);
        if count_present(names, present) == 0 {
            assert forall|k: int| 0 <= k < names.len() implies !present.contains(
                #[trigger] names[k],
            ) by {
                if k < earlier.len() {
                    assert(earlier[k] == names[k]);
                }
            }
        } else if count_present(earlier, present) != 0 {
            let k = choose|k: int| 0 <= k < earlier.len() && present.contains(#[trigger] earlier[k]);
            assert(names[k] == earlier[k]);
        }
    }
}

/// An instrumentor none of whose declared names is in the inventory is
/// reported with nothing found, at its own place in a report that has one
/// entry for each registered instrumentor: it is flagged, not removed.
pub proof fn lemma_unmatched_is_flagged_and_kept(
    plugins: Seq<PluginModel>,
    present: Set<Seq<char>>,
    i: int,
)
    requires
        0 <= i < plugins.len(),
        forall|k: int|
            0 <= k < plugins[i].functions.len() ==> !present.contains(
                #[trigger] plugins[i].functions[k],
            ),
    ensures
        match_report(plugins, present).len() == plugins.len(),
        match_report(plugins, present)[i].library == plugins[i].library,
        match_report(plugins, present)[i].found == 0,
        match_report(plugins, present)[i].total == plugins[i].functions.len(),
{
    lemma_nothing_found_means_no_overlap(plugins[i].functions, present);
}

/// Loading and closing change nothing of what the instrumentors declared:
/// the names asked of the analysis and the report on an inventory are the
/// same before and after.
pub proof fn lemma_lifecycle_keeps_declarations(
    plugins: Seq<PluginModel>,
    count: int,
    present: Set<Seq<char>>,
)
    ensures
        declared_names(loaded_through(plugins, count)) == declared_names(plugins),
        declared_names(all_closed(plugins)) == declared_names(plugins),
        match_report(loaded_through(plugins, count), present) == match_report(plugins, present),
        match_report(all_closed(plugins), present) == match_report(plugins, present),
{
    let loaded = loaded_through(plugins, count);
    let closed = all_closed(plugins);
    assert forall|name: Seq<char>|
        declared_names(loaded).contains(name) <==> declared_names(plugins).contains(name) by {
        if declared_names(loaded).contains(name) {
            let i = choose|i: int| 0 <= i < loaded.len() && (#[trigger] loaded[i]).functions.contains(name);
            assert(plugins[i].functions.contains(name));
        }
        if declared_names(plugins).contains(name) {
            let i = choose|i: int|
                0 <= i < plugins.len() && (#[trigger] plugins[i]).functions.contains(name);
            assert(loaded[i].functions.contains(name));
        }
    }
    assert forall|name: Seq<char>|
        declared_names(closed).contains(name) <==> declared_names(plugins).contains(name) by {
        if declared_names(closed).contains(name) {
            let i = choose|i: int| 0 <= i < closed.len() && (#[trigger] closed[i]).functions.contains(name);
            assert(plugins[i].functions.contains(name));
        }
        if declared_names(plugins).contains(name) {
            let i = choose|i: int|
                0 <= i < plugins.len() && (#[trigger] plugins[i]).functions.contains(name);
            assert(closed[i].functions.contains(name));
        }
    }
    assert(declared_names(loaded) =~= declared_names(plugins));
    assert(declared_names(closed) =~= declared_names(plugins));
    assert(match_report(loaded, present) =~= match_report(plugins, present));
    assert(match_report(closed, present) =~= match_report(plugins, present));
}

/// No two instrumentors observe the same library.
pub open spec fn distinct_libraries(plugins: Seq<PluginModel>) -> bool {
    forall|i: int, j: int|
        0 <= i < plugins.len() && 0 <= j < plugins.len() && i != j ==> (#[trigger] plugins[i]).library
            != (#[trigger] plugins[j]).library
}

/// Instrumentors that keep their libraries, each at its place, keep them
/// distinct.
pub proof fn lemma_same_libraries_stay_distinct(before: Seq<PluginModel>, now: Seq<PluginModel>)
    requires
        distinct_libraries(before),
        now.len() == before.len(),
        forall|i: int| 0 <= i < now.len() ==> (#[trigger] now[i]).library == before[i].library,
    ensures
        distinct_libraries(now),
{
    assert forall|i: int, j: int| 0 <= i < now.len() && 0 <= j < now.len() && i != j implies (
    #[trigger] now[i]).library != (#[trigger] now[j]).library by {
        assert(now[i].library == before[i].library);
        assert(now[j].library == before[j].library);
        assert(before[i].library != before[j].library);
    }
}

/// The place of the instrumentor of `library`, if one is registered.
pub open spec fn position_of(plugins: Seq<PluginModel>, library: Seq<char>) -> Option<int> {
    if exists|i: int| 0 <= i < plugins.len() && (#[trigger] plugins[i]).library == library {
        Some(choose|i: int| 0 <= i < plugins.len() && (#[trigger] plugins[i]).library == library)
    } else {
        None
    }
}

/// Registration keeps one instrumentor per library: a newcomer takes the
/// place of the one that observed its library, or else comes last.
pub open spec fn registered(plugins: Seq<PluginModel>, plugin: PluginModel) -> Seq<PluginModel> {
    match position_of(plugins, plugin.library) {
        Some(i) => plugins.update(i, plugin),
        None => plugins.push(plugin),
    }
}

/// The place that a registration under `library` takes: that of the
/// instrumentor kept under this name, or else the one behind the last.
pub open spec fn place_registered(plugins: Seq<PluginModel>, library: Seq<char>) -> int {
    match position_of(plugins, library) {
        Some(i) => i,
        None => plugins.len() as int,
    }
}

/// What the `hyper` instrumentor declares, before it is loaded.
pub open spec fn hyper_plugin() -> PluginModel {
    PluginModel { library: hyper_library(), functions: hyper_functions(), loaded: false }
}

/// What a round of events holds once one more instrumentor has answered:
/// its events come behind those gathered so far, and a failure takes the
/// place of them all.
pub open spec fn with_batch(
    gathered: Seq<EventModel>,
    batch: Result<Seq<EventModel>, crate::errors::ErrorModel>,
) -> Result<Seq<EventModel>, crate::errors::ErrorModel> {
    match batch {
        Ok(events) => Ok(gathered + events),
        Err(error) => Err(error),
    }
}

/// Copies borrowed names into owned strings.
fn owned_names(names: &Vec<&str>) -> (owned: Vec<String>)
    ensures
        owned@.len() == names@.len(),
        forall|i: int| 0 <= i < owned@.len() ==> (#[trigger] owned@[i])@ == names@[i]@,
{
    let mut owned: Vec<String> = Vec::new();
    let mut index: usize = 0;
    while index < names.len()
        invariant
            index <= names.len(),
            owned@.len() == index,
            forall|i: int| 0 <= i < owned@.len() ==> (#[trigger] owned@[i])@ == names@[i]@,
        decreases names.len() - index,
    {
        owned.push(names[index].to_owned());
        index = index + 1;
    }
    owned
}

/// Owns the instrumentors, one per library, in the order of registration.
pub struct Manager {
    registrations: Vec<Registration>,
}

impl View for Manager {
    type V = Seq<PluginModel>;

    closed spec fn view(&self) -> Seq<PluginModel> {
        self.registrations@.map_values(|r: Registration| r@)
    }
}

impl Manager {
    #[verifier::type_invariant]
    spec fn one_per_library(&self) -> bool {
        distinct_libraries(self@)
    }

    /// The instrumentors in the manager's keeping, each at the place of its
    /// entry in the manager's value.
    pub closed spec fn handles(&self) -> Seq<Box<dyn Instrumentor>> {
        self.registrations@.map_values(|r: Registration| r.instrumentor)
    }

    /// A manager with the instrumentors that the agent ships: `hyper`.
    pub fn new() -> (manager: Self)
        ensures
            manager@ == seq![hyper_plugin()],
    {
        let hyper = HyperInstrumentor::new();
        let library = hyper.library_name().to_owned();
        let functions = owned_names(&hyper.func_names());
        assert(texts(functions@) =~= hyper_functions());
        let registration = Registration::new(library, functions, Box::new(hyper));
        let mut registrations: Vec<Registration> = Vec::new();
        registrations.push(registration);
        assert(registrations@.map_values(|r: Registration| r@) =~= seq![hyper_plugin()]);
        Manager { registrations }
    }

    /// Takes `instrumentor` into keeping, under the library and the functions
    /// that it declares now, and not loaded. It replaces the instrumentor
    /// that observed the same library, if there was one.
    pub fn register(&mut self, instrumentor: Box<dyn Instrumentor>)
        ensures
            exists|plugin: PluginModel|
                !plugin.loaded && final(self)@ == registered(old(self)@, plugin),
            distinct_libraries(final(self)@),
    {
        let library = instrumentor.library_name().to_owned();
        let functions = owned_names(&instrumentor.func_names());
        self.register_as(library, functions, instrumentor);
    }

    /// Takes `instrumentor` into keeping under the name `library` and with
    /// the declared `functions`, not loaded. It replaces the instrumentor
    /// that was kept under the same name, if there was one, and else comes
    /// last; at that place the manager keeps `instrumentor` itself.
    pub fn register_as(
        &mut self,
        library: String,
        functions: Vec<String>,
        instrumentor: Box<dyn Instrumentor>,
    )
        ensures
            final(self)@ == registered(
                old(self)@,
                (PluginModel { library: library@, functions: texts(functions@), loaded: false }),
            ),
            final(self).handles()[place_registered(old(self)@, library@)] === instrumentor,
            distinct_libraries(final(self)@),
    {
        let ghost newcomer = instrumentor;
        let registration = Registration {
            library,
            functions,
            loaded: false,
            instrumentor,
        }.settled();
        let ghost made = registration;
        let ghost plugin = registration@;
        let ghost before = self@;
        proof {
            use_type_invariant(&*self);
        }
        let count = self.registrations.len();
        let mut index: usize = 0;
        let mut replaces = false;
        while index < count && !replaces
            invariant
                count == self.registrations@.len(),
                index <= count,
                before == self.registrations@.map_values(|r: Registration| r@),
                plugin == registration@,
                forall|k: int| 0 <= k < index ==> (#[trigger] before[k]).library != plugin.library,
                replaces ==> index < count && before[index as int].library == plugin.library,
            decreases count - index + (if replaces { 0int } else { 1int }),
        {
            if self.registrations[index].library == registration.library {
                replaces = true;
            } else {
                index = index + 1;
            }
        }
        let mut registrations: Vec<Registration> = Vec::new();
        std::mem::swap(&mut self.registrations, &mut registrations);
        assert(registrations@.map_values(|r: Registration| r@) == before);
        if replaces {
            proof {
                assert(before[index as int].library == plugin.library);
                let chosen = choose|i: int|
                    0 <= i < before.len() && (#[trigger] before[i]).library == plugin.library;
                assert(chosen == index);
                assert(registered(before, plugin) == before.update(index as int, plugin));
                assert(place_registered(before, plugin.library) == index);
                lemma_same_libraries_stay_distinct(before, before.update(index as int, plugin));
                assert(registrations@.update(index as int, registration).map_values(
                    |r: Registration| r@,
                ) =~= before.update(index as int, plugin));
            }
            registrations[index] = registration;
        } else {
            proof {
                assert(registered(before, plugin) == before.push(plugin));
                assert(place_registered(before, plugin.library) == before.len());
                assert(registrations@.push(registration).map_values(|r: Registration| r@)
                    =~= before.push(plugin));
                assert forall|i: int, j: int|
                    0 <= i < before.len() + 1 && 0 <= j < before.len() + 1 && i != j implies (
                #[trigger] before.push(plugin)[i]).library != (#[trigger] before.push(
                    plugin,
                )[j]).library by {
                    if i < before.len() && j < before.len() {
                        assert(before[i].library != before[j].library);
                    }
                }
            }
            registrations.push(registration);
        }
        proof {
            let place = place_registered(before, plugin.library);
            assert(registrations@[place] === made);
            assert(made.instrumentor === newcomer);
            assert(registrations@.map_values(|r: Registration| r.instrumentor)[place] === newcomer);
        }
        self.registrations = registrations;
    }

    /// Every function name that some registered instrumentor declared. The
    /// analysis of the target takes this set as its filter.
    pub fn get_relevant_funcs(&self) -> (relevant: RequiredFunctionSet)
        ensures
            relevant@ == declared_names(self@),
    {
        let mut relevant = NameSet::new();
        let mut index: usize = 0;
        assert(relevant@ =~= declared_names(self@.take(0)));
        while index < self.registrations.len()
            invariant
                index <= self.registrations.len(),
                relevant@ == declared_names(self@.take(index as int)),
            decreases self.registrations.len() - index,
        {
            self.registrations[index].add_names_to(&mut relevant);
            proof {
                let gives = |plugin: PluginModel, name: Seq<char>| plugin.functions.contains(name);
                lemma_one_more_item_gives_its_names(self@, gives, index as int);
                assert(declared_names(self@.take(index as int)) =~= names_given(
                    self@.take(index as int),
                    gives,
                ));
                assert(declared_names(self@.take(index + 1)) =~= names_given(
                    self@.take(index + 1),
                    gives,
                ));
                assert(relevant@ =~= declared_names(self@.take(index + 1)));
            }
            index = index + 1;
        }
        assert(self@.take(index as int) =~= self@);
        relevant
    }

    /// Reports, for each registered instrumentor in turn, how many of the
    /// functions it declared are in the inventory of `target`, by readable
    /// name. An instrumentor that finds none is reported like the others,
    /// and stays registered. No library is reported twice.
    pub fn filter_unused_instrumentors(&self, target: &TargetDetails) -> (report: Vec<
        InstrumentorMatch,
    >)
        ensures
            match_models(report@) == match_report(self@, demangled_names(target@.functions)),
            distinct_libraries(self@),
    {
        proof {
            use_type_invariant(self);
        }
        let existing = target.function_names();
        let mut report: Vec<InstrumentorMatch> = Vec::new();
        let mut index: usize = 0;
        while index < self.registrations.len()
            invariant
                index <= self.registrations.len(),
                existing@ == demangled_names(target@.functions),
                report@.len() == index,
                forall|k: int|
                    0 <= k < index ==> (#[trigger] report@[k])@ == match_of(self@[k], existing@),
            decreases self.registrations.len() - index,
        {
            let registration = &self.registrations[index];
            let found = registration.count_in(&existing);
            let entry = InstrumentorMatch {
                library: registration.library.clone(),
                found,
                total: registration.functions.len(),
            };
            assert(entry@ == match_of(self@[index as int], existing@));
            report.push(entry);
            index = index + 1;
        }
        assert(match_models(report@) =~= match_report(self@, existing@));
        report
    }

    /// Loads every instrumentor with the inventory of `target`, in the
    /// order of registration, those that found nothing too. Each one that
    /// succeeds is loaded from then on. The first failure ends the loading
    /// and is returned: the instrumentors before it are loaded, and it and
    /// those behind it are as they were. What the instrumentors declared
    /// stays as it was registered, whatever they do.
    pub fn load(&mut self, target: &TargetDetails) -> (outcome: Result<(), Error>)
        ensures
            outcome is Ok ==> final(self)@ == loaded_through(old(self)@, old(self)@.len() as int),
            outcome is Err ==> exists|failed: int|
                0 <= failed < old(self)@.len() && final(self)@ == loaded_through(old(self)@, failed),
    {
        let ghost before = self@;
        proof {
            use_type_invariant(&*self);
        }
        let mut registrations: Vec<Registration> = Vec::new();
        std::mem::swap(&mut self.registrations, &mut registrations);
        let mut outcome: Result<(), Error> = Ok(());
        let mut index: usize = 0;
        assert(before =~= loaded_through(before, 0));
        while index < registrations.len() && outcome.is_ok()
            invariant
                index <= registrations.len(),
                before.len() == registrations@.len(),
                distinct_libraries(before),
                outcome is Ok ==> registrations@.map_values(|r: Registration| r@) == loaded_through(
                    before,
                    index as int,
                ),
                outcome is Err ==> 0 < index && registrations@.map_values(|r: Registration| r@)
                    == loaded_through(before, index - 1),
            decreases registrations.len() - index,
        {
            let ghost held = registrations@;
            outcome = registrations[index].load(target);
            proof {
                let earlier = held.map_values(|r: Registration| r@);
                let now = registrations@.map_values(|r: Registration| r@);
                assert(earlier[index as int] == before[index as int]);
                assert forall|i: int| 0 <= i < now.len() && i != index implies now[i]
                    == earlier[i] by {
                    assert(registrations@[i] == held[i]);
                }
                if outcome is Ok {
                    assert(now[index as int] == as_loaded(before[index as int]));
                    assert(now =~= loaded_through(before, index + 1));
                } else {
                    assert(now[index as int] == before[index as int]);
                    assert(now =~= loaded_through(before, index as int));
                }
            }
            index = index + 1;
        }
        proof {
            lemma_same_libraries_stay_distinct(
                before,
                registrations@.map_values(|r: Registration| r@),
            );
        }
        self.registrations = registrations;
        outcome
    }

    /// Puts what one instrumentor answered behind the events gathered so
    /// far in a round: its events in their order, or else its failure,
    /// which ends the round.
    pub fn gather(gathered: Vec<Event>, batch: Result<Vec<Event>, Error>) -> (outcome: Result<
        Vec<Event>,
        Error,
    >)
        ensures
            match batch {
                Ok(events) => outcome matches Ok(all) && with_batch(
                    event_models(gathered@),
                    Ok(event_models(events@)),
                ) == Ok::<Seq<EventModel>, crate::errors::ErrorModel>(event_models(all@)),
                Err(error) => outcome matches Err(same) && same@ == error@,
            },
    {
        match batch {
            Ok(mut events) => {
                let mut all = gathered;
                let ghost first = all@;
                let ghost second = events@;
                all.append(&mut events);
                assert(event_models(all@) =~= event_models(first) + event_models(second));
                Ok(all)
            },
            Err(error) => Err(error),
        }
    }

    /// Asks every loaded instrumentor, in the order of registration, for
    /// the events it has observed, and hands them out in that order. The
    /// first failure ends the round and is returned. While no instrumentor
    /// is loaded there is nobody to ask, and the round is empty.
    pub fn collect_events(&self) -> (outcome: Result<Vec<Event>, Error>)
        ensures
            none_loaded(self@) ==> (outcome matches Ok(events) && events@.len() == 0),
    {
        let mut events: Vec<Event> = Vec::new();
        let mut index: usize = 0;
        while index < self.registrations.len()
            invariant
                index <= self.registrations.len(),
                none_loaded(self@) ==> events@.len() == 0,
            decreases self.registrations.len() - index,
        {
            let batch = self.registrations[index].run();
            proof {
                if none_loaded(self@) {
                    assert(!self@[index as int].loaded);
                    assert(batch matches Ok(observed) && event_models(events@) + event_models(
                        observed@,
                    ) =~= Seq::<EventModel>::empty());
                }
            }
            match Self::gather(events, batch) {
                Ok(all) => {
                    assert(none_loaded(self@) ==> event_models(all@).len() == 0);
                    events = all;
                },
                Err(error) => {
                    return Err(error);
                },
            }
            index = index + 1;
        }
        Ok(events)
    }

    /// Says what the driver does with a round of events: it sends them
    /// and asks again, or, after a round that brought nothing, stops
    /// producing.
    pub fn after_round(round: Vec<Event>) -> (next: Production)
        ensures
            next@ == production_after(event_models(round@)),
    {
        if round.len() == 0 {
            Production::Stop
        } else {
            Production::Send(round)
        }
    }

    /// Has every loaded instrumentor release what it prepared, in the
    /// order of registration. Afterwards none is loaded. What the
    /// instrumentors declared stays as it was registered.
    pub fn close(&mut self)
        ensures
            final(self)@ == all_closed(old(self)@),
    {
        let ghost before = self@;
        proof {
            use_type_invariant(&*self);
        }
        let mut registrations: Vec<Registration> = Vec::new();
        std::mem::swap(&mut self.registrations, &mut registrations);
        let mut index: usize = 0;
        while index < registrations.len()
            invariant
                index <= registrations.len(),
                before.len() == registrations@.len(),
                forall|i: int|
                    0 <= i < index ==> (#[trigger] registrations@[i])@ == as_closed(before[i]),
                forall|i: int|
                    index <= i < registrations@.len() ==> (#[trigger] registrations@[i])@ == before[i],
            decreases registrations.len() - index,
        {
            registrations[index].close();
            index = index + 1;
        }
        proof {
            assert(registrations@.map_values(|r: Registration| r@) =~= all_closed(before));
            lemma_same_libraries_stay_distinct(before, all_closed(before));
        }
        self.registrations = registrations;
    }

    /// Runs the event pipeline one step: says what its driver has to do
    /// about what it observed. The driver owns the bounded channel of
    /// [`crate::events::EVENT_CHANNEL_CAPACITY`] events and the sink; it
    /// reports each event that arrives, the end of the events, and the
    /// shutdown signal, and does what it is told until it is told to finish.
    pub fn run(event: PipelineEvent) -> (action: PipelineAction)
        ensures
            action@ == pipeline_action(event@),
    {
        match event {
            PipelineEvent::Received(event) => PipelineAction::Export(event.into_span()),
            PipelineEvent::Closed => PipelineAction::Finish(Ok(())),
            PipelineEvent::Shutdown => PipelineAction::Finish(Err(Error::Interrupted)),
        }
    }

    /// The number of registered instrumentors.
    pub fn len(&self) -> (count: usize)
        ensures
            count == self@.len(),
    {
        self.registrations.len()
    }
}

} // verus!
