//! Batch dispatch and result aggregation.
//!
//! A batch command pairs an action with a set of applications. The
//! dispatcher partitions the applications by build-system kind, routes
//! each partition to its backend, and merges the returned ledgers into
//! one report sorted by application name. The ledger
//! ([`BatchBuildResults`]) records one outcome per application and
//! supports sequential and parallel transformation stages that skip
//! applications whose outcome is already a failure.

use crate::order::{chars_le, lemma_chars_le_total, lemma_chars_le_trans, str_le};
use rayon::iter::{IntoParallelRefMutIterator, ParallelIterator};
use vstd::multiset::Multiset;
use vstd::prelude::*;
use vstd::string::*;

pub mod lfc;

verus! {

/// The kind of build system an application is built with. Determines
/// which backend processes the application.
#[derive(Clone, Copy, PartialEq, Eq, Structural, Debug)]
pub enum BuildSystem {
    /// The code-generation compiler.
    LFC,
    /// The native multi-platform build system.
    CMake,
    /// The package-manager build system; declared but without an
    /// implemented backend.
    Cargo,
}

/// Build profile, mostly relevant for target compilation.
#[derive(Clone, Copy, PartialEq, Eq, Structural)]
pub enum BuildProfile {
    /// Compile with optimizations.
    Release,
    /// Compile with debug info.
    Debug,
}

/// One buildable unit: the orchestrator reads only its identity (the
/// name, used as the stable sort key of reports), its build-system kind,
/// and the name of its main entry point.
pub struct App {
    /// Stable identity, used to order reports.
    pub name: String,
    /// Which backend builds this application.
    pub build_system: BuildSystem,
    /// Name of the main entry point handed to the code generator.
    pub main_reactor: String,
}

/// Mathematical value of an [`App`].
pub struct AppView {
    pub name: Seq<char>,
    pub build_system: BuildSystem,
    pub main_reactor: Seq<char>,
}

impl View for App {
    type V = AppView;

    open spec fn view(&self) -> AppView {
        AppView {
            name: self.name@,
            build_system: self.build_system,
            main_reactor: self.main_reactor@,
        }
    }
}

impl Clone for App {
    fn clone(&self) -> (res: Self)
        ensures
            res@ == self@,
    {
        App {
            name: self.name.clone(),
            build_system: self.build_system,
            main_reactor: self.main_reactor.clone(),
        }
    }
}

impl App {
    /// Which backend builds this application.
    pub fn build_system(&self) -> (k: BuildSystem)
        ensures
            k == self.build_system,
    {
        self.build_system
    }
}

/// The result of applying one operation to one application: success, or
/// a failure carrying a descriptive message.
pub enum Outcome {
    Success,
    Failure(String),
}

/// Mathematical value of an [`Outcome`].
pub enum OutcomeView {
    Success,
    Failure(Seq<char>),
}

impl View for Outcome {
    type V = OutcomeView;

    open spec fn view(&self) -> OutcomeView {
        match self {
            Outcome::Success => OutcomeView::Success,
            Outcome::Failure(m) => OutcomeView::Failure(m@),
        }
    }
}

impl Clone for Outcome {
    fn clone(&self) -> (res: Self)
        ensures
            res@ == self@,
    {
        match self {
            Outcome::Success => Outcome::Success,
            Outcome::Failure(m) => Outcome::Failure(m.clone()),
        }
    }
}

impl Outcome {
    /// True exactly when this outcome records a success.
    pub fn is_success(&self) -> (b: bool)
        ensures
            b == (self@ is Success),
    {
        match self {
            Outcome::Success => true,
            Outcome::Failure(_) => false,
        }
    }
}

/// Options of a build action.
pub struct BuildCommandOptions {
    /// Build profile, mostly relevant for target compilation.
    pub profile: BuildProfile,
    /// Whether to compile the generated target code.
    pub compile_target_code: bool,
    /// Path to the code-generation compiler executable.
    pub lfc_exec_path: String,
}

/// Mathematical value of [`BuildCommandOptions`].
pub struct BuildCommandOptionsView {
    pub profile: BuildProfile,
    pub compile_target_code: bool,
    pub lfc_exec_path: Seq<char>,
}

impl View for BuildCommandOptions {
    type V = BuildCommandOptionsView;

    open spec fn view(&self) -> BuildCommandOptionsView {
        BuildCommandOptionsView {
            profile: self.profile,
            compile_target_code: self.compile_target_code,
            lfc_exec_path: self.lfc_exec_path@,
        }
    }
}

impl Clone for BuildCommandOptions {
    fn clone(&self) -> (res: Self)
        ensures
            res@ == self@,
    {
        BuildCommandOptions {
            profile: self.profile,
            compile_target_code: self.compile_target_code,
            lfc_exec_path: self.lfc_exec_path.clone(),
        }
    }
}

/// Description of the requested action. Immutable once constructed;
/// cloned when a batch is re-scoped to a sub-batch.
pub enum CommandSpec {
    /// Generate code and, per the options, compile it.
    Build(BuildCommandOptions),
    /// Update dependencies.
    Update,
    /// Clean build artifacts.
    Clean,
}

/// Mathematical value of a [`CommandSpec`].
pub enum CommandSpecView {
    Build(BuildCommandOptionsView),
    Update,
    Clean,
}

impl View for CommandSpec {
    type V = CommandSpecView;

    open spec fn view(&self) -> CommandSpecView {
        match self {
            CommandSpec::Build(o) => CommandSpecView::Build(o@),
            CommandSpec::Update => CommandSpecView::Update,
            CommandSpec::Clean => CommandSpecView::Clean,
        }
    }
}

impl Clone for CommandSpec {
    fn clone(&self) -> (res: Self)
        ensures
            res@ == self@,
    {
        match self {
            CommandSpec::Build(o) => CommandSpec::Build(o.clone()),
            CommandSpec::Update => CommandSpec::Update,
            CommandSpec::Clean => CommandSpec::Clean,
        }
    }
}

/// The views of a sequence of applications.
pub open spec fn app_views(s: Seq<App>) -> Seq<AppView> {
    s.map_values(|a: App| a@)
}

/// Of the given application views, those using the given build system,
/// in order.
pub open spec fn views_of_kind(s: Seq<AppView>, k: BuildSystem) -> Seq<AppView>
    decreases s.len(),
{
    if s.len() == 0 {
        Seq::empty()
    } else if s.last().build_system == k {
        views_of_kind(s.drop_last(), k).push(s.last())
    } else {
        views_of_kind(s.drop_last(), k)
    }
}

/// Partitioning by build-system kind loses no application and duplicates
/// none: when no application uses the kind without a backend, the two
/// implemented partitions together hold exactly the whole set.
pub proof fn lemma_partition_complete(s: Seq<AppView>)
    requires
        forall|i: int| 0 <= i < s.len() ==> !((#[trigger] s[i]).build_system is Cargo),
    ensures
        views_of_kind(s, BuildSystem::LFC).to_multiset().add(
            views_of_kind(s, BuildSystem::CMake).to_multiset(),
        ) == s.to_multiset(),
    decreases s.len(),
{
    broadcast use vstd::multiset::group_multiset_axioms;
    broadcast use vstd::seq_lib::group_to_multiset_ensures;

    if s.len() == 0 {
        assert(s.to_multiset() =~= Multiset::<AppView>::empty());
        assert(views_of_kind(s, BuildSystem::LFC).to_multiset().add(
            views_of_kind(s, BuildSystem::CMake).to_multiset(),
        ) =~= s.to_multiset());
    } else {
        let t = s.drop_last();
        let x = s.last();
        assert(forall|i: int| 0 <= i < t.len() ==> t[i] == s[i]);
        lemma_partition_complete(t);
        assert(s =~= t.push(x));
        vstd::seq_lib::to_multiset_build(t, x);
        let ml = views_of_kind(t, BuildSystem::LFC).to_multiset();
        let mc = views_of_kind(t, BuildSystem::CMake).to_multiset();
        if x.build_system is LFC {
            vstd::seq_lib::to_multiset_build(views_of_kind(t, BuildSystem::LFC), x);
            assert(views_of_kind(s, BuildSystem::LFC) == views_of_kind(
                t,
                BuildSystem::LFC,
            ).push(x));
            assert(views_of_kind(s, BuildSystem::CMake) == views_of_kind(t, BuildSystem::CMake));
            assert(ml.insert(x).add(mc) =~= ml.add(mc).insert(x));
        } else {
            vstd::seq_lib::to_multiset_build(views_of_kind(t, BuildSystem::CMake), x);
            assert(views_of_kind(s, BuildSystem::CMake) == views_of_kind(
                t,
                BuildSystem::CMake,
            ).push(x));
            assert(views_of_kind(s, BuildSystem::LFC) == views_of_kind(t, BuildSystem::LFC));
            assert(ml.add(mc.insert(x)) =~= ml.add(mc).insert(x));
        }
    }
}

/// Those applications of the batch that use the given build system, in
/// their original order.
#[verifier::loop_isolation(false)]
fn apps_of_kind(apps: &Vec<App>, k: BuildSystem) -> (r: Vec<App>)
    ensures
        app_views(r@) == views_of_kind(app_views(apps@), k),
{
    let ghost av = app_views(apps@);
    let mut r: Vec<App> = Vec::new();
    let mut i: usize = 0;
    proof {
        assert(av.take(0) =~= Seq::<AppView>::empty());
        assert(app_views(r@) =~= views_of_kind(av.take(0), k));
    }
    while i < apps.len()
        invariant
            i <= apps@.len(),
            app_views(r@) == views_of_kind(av.take(i as int), k),
        decreases apps@.len() - i,
    {
        let ghost before = app_views(r@);
        proof {
            assert(av.take(i + 1).drop_last() =~= av.take(i as int));
            assert(av.take(i + 1).last() == apps@[i as int]@);
        }
        if apps[i].build_system == k {
            r.push(apps[i].clone());
            proof {
                assert(app_views(r@) =~= before.push(apps@[i as int]@));
            }
        }
        i = i + 1;
    }
    proof {
        assert(av.take(apps@.len() as int) =~= av);
    }
    r
}

/// One ledger entry: an application together with its recorded outcome.
pub struct AppResult {
    /// The application the outcome belongs to.
    pub app: App,
    /// The outcome recorded so far for this application.
    pub outcome: Outcome,
}

/// Mathematical value of an [`AppResult`].
pub struct AppResultView {
    pub app: AppView,
    pub outcome: OutcomeView,
}

impl View for AppResult {
    type V = AppResultView;

    open spec fn view(&self) -> AppResultView {
        AppResultView { app: self.app@, outcome: self.outcome@ }
    }
}

impl Clone for AppResult {
    fn clone(&self) -> (res: Self)
        ensures
            res@ == self@,
    {
        AppResult { app: self.app.clone(), outcome: self.outcome.clone() }
    }
}

/// The views of a sequence of ledger entries.
pub open spec fn entry_views(s: Seq<AppResult>) -> Seq<AppResultView> {
    s.map_values(|e: AppResult| e@)
}

/// The applications of a sequence of ledger entries, outcomes dropped.
pub open spec fn result_apps(s: Seq<AppResultView>) -> Seq<AppView> {
    s.map_values(|e: AppResultView| e.app)
}

/// The entries are ordered by application name.
pub open spec fn sorted_by_name(s: Seq<AppResultView>) -> bool {
    forall|i: int, j: int|
        0 <= i < j < s.len() ==> chars_le((#[trigger] s[i]).app.name, (#[trigger] s[j]).app.name)
}

/// The report line of one ledger entry, newline included.
pub open spec fn report_line(e: AppResultView) -> Seq<char> {
    match e.outcome {
        OutcomeView::Success => "- "@ + e.app.name + ": Success\n"@,
        OutcomeView::Failure(m) => "- "@ + e.app.name + ": Error: "@ + m + "\n"@,
    }
}

/// The report of a whole ledger: the lines of its entries, in order.
pub open spec fn report_text(s: Seq<AppResultView>) -> Seq<char>
    decreases s.len(),
{
    if s.len() == 0 {
        Seq::empty()
    } else {
        report_line(s[0]) + report_text(s.drop_first())
    }
}

/// Appending one entry to a ledger appends its line to the report.
pub proof fn lemma_report_text_push(s: Seq<AppResultView>, x: AppResultView)
    ensures
        report_text(s.push(x)) == report_text(s) + report_line(x),
    decreases s.len(),
{
    if s.len() == 0 {
        assert(s.push(x)[0] == x);
        assert(s.push(x).drop_first() =~= Seq::<AppResultView>::empty());
        assert(report_text(s.push(x)) == report_line(x) + report_text(
            Seq::<AppResultView>::empty(),
        ));
        assert(report_text(Seq::<AppResultView>::empty()) =~= Seq::<char>::empty());
        assert(report_line(x) + Seq::<char>::empty() =~= report_line(x));
        assert(report_text(s) =~= Seq::<char>::empty());
        assert(Seq::<char>::empty() + report_line(x) =~= report_line(x));
    } else {
        lemma_report_text_push(s.drop_first(), x);
        assert(s.push(x)[0] == s[0]);
        assert(s.push(x).drop_first() =~= s.drop_first().push(x));
        assert(report_text(s.push(x)) == report_line(s[0]) + report_text(s.drop_first().push(x)));
        assert(report_line(s[0]) + (report_text(s.drop_first()) + report_line(x)) =~= (report_line(
            s[0],
        ) + report_text(s.drop_first())) + report_line(x));
        assert(report_text(s) == report_line(s[0]) + report_text(s.drop_first()));
    }
}

/// Collects build results by application: the ledger of one batch run.
pub struct BatchBuildResults {
    results: Vec<AppResult>,
}

impl View for BatchBuildResults {
    type V = Seq<AppResultView>;

    open spec fn view(&self) -> Seq<AppResultView> {
        entry_views(self.entries())
    }
}

impl BatchBuildResults {
    /// The entries of the ledger, in order.
    pub closed spec fn entries(&self) -> Seq<AppResult> {
        self.results@
    }

    /// An empty ledger.
    pub fn new() -> (r: Self)
        ensures
            r@ == Seq::<AppResultView>::empty(),
    {
        let r = BatchBuildResults { results: Vec::new() };
        proof {
            assert(r@ =~= Seq::<AppResultView>::empty());
        }
        r
    }

    /// A ledger pre-populated with one success placeholder per
    /// application of the given set.
    pub fn for_apps(apps: &Vec<App>) -> (r: Self)
        ensures
            r@.len() == apps@.len(),
            forall|i: int|
                0 <= i < apps@.len() ==> (#[trigger] r@[i]).app == apps@[i]@ && r@[i].outcome
                    is Success,
    {
        let mut results: Vec<AppResult> = Vec::new();
        let mut i: usize = 0;
        while i < apps.len()
            invariant
                i <= apps@.len(),
                results@.len() == i,
                forall|j: int|
                    0 <= j < i ==> (#[trigger] results@[j])@.app == apps@[j]@ && results@[j]@.outcome
                        is Success,
            decreases apps@.len() - i,
        {
            results.push(AppResult { app: apps[i].clone(), outcome: Outcome::Success });
            i = i + 1;
        }
        BatchBuildResults { results }
    }

    /// Absorb another ledger's entries into this one, then re-sort by
    /// application name for deterministic reporting. Entries are not
    /// deduplicated, so callers keep the two application sets disjoint;
    /// the contract below holds either way.
    pub fn append(&mut self, other: BatchBuildResults)
        ensures
            final(self)@.to_multiset() == old(self)@.to_multiset().add(other@.to_multiset()),
            result_apps(final(self)@).to_multiset() == result_apps(old(self)@).to_multiset().add(
                result_apps(other@).to_multiset(),
            ),
            sorted_by_name(final(self)@),
    {
        let mut other = other;
        let ghost a = entry_views(self.results@);
        let ghost b = entry_views(other.results@);
        self.results.append(&mut other.results);
        proof {
            assert(entry_views(self.results@) =~= a + b);
            vstd::seq_lib::lemma_multiset_commutative(a, b);
            assert(result_apps(a + b) =~= result_apps(a) + result_apps(b));
            vstd::seq_lib::lemma_multiset_commutative(result_apps(a), result_apps(b));
        }
        self.results = sorted_copy(&self.results);
    }

    /// Map results sequentially. Applications that already have a failing
    /// outcome recorded are not fed to the mapping function.
    #[verifier::loop_isolation(false)]
    pub fn map<F: Fn(&App) -> Outcome>(self, f: F) -> (res: BatchBuildResults)
        requires
            forall|i: int|
                0 <= i < self.entries().len() && (#[trigger] self.entries()[i]).outcome is Success
                    ==> call_requires(f, (&self.entries()[i].app,)),
        ensures
            res.entries().len() == self.entries().len(),
            forall|i: int|
                0 <= i < self.entries().len() ==> (#[trigger] res.entries()[i]).app
                    == self.entries()[i].app,
            forall|i: int|
                0 <= i < self.entries().len() && (#[trigger] self.entries()[i]).outcome is Failure
                    ==> res.entries()[i] == self.entries()[i],
            forall|i: int|
                0 <= i < self.entries().len() && (#[trigger] self.entries()[i]).outcome is Success
                    ==> call_ensures(f, (&self.entries()[i].app,), res.entries()[i].outcome),
    {
        let ghost orig = self.entries();
        let mut this = self;
        let mut i: usize = 0;
        while i < this.results.len()
            invariant
                i <= orig.len(),
                this.results@.len() == orig.len(),
                forall|j: int| i <= j < orig.len() ==> #[trigger] this.results@[j] == orig[j],
                forall|j: int|
                    0 <= j < i ==> (#[trigger] this.results@[j]).app == orig[j].app,
                forall|j: int|
                    0 <= j < i && (#[trigger] orig[j]).outcome is Failure ==> this.results@[j]
                        == orig[j],
                forall|j: int|
                    0 <= j < i && (#[trigger] orig[j]).outcome is Success ==> call_ensures(
                        f,
                        (&orig[j].app,),
                        this.results@[j].outcome,
                    ),
            decreases orig.len() - i,
        {
            stage_entry(&mut this.results[i], &f);
            i = i + 1;
        }
        this
    }

    /// Map results in parallel. Identical contract to [`Self::map`]:
    /// applications that already have a failing outcome recorded are not
    /// fed to the mapping function, and each entry's final outcome comes
    /// from its own application alone.
    pub fn par_map<F: Fn(&App) -> Outcome + Send + Sync>(self, f: F) -> (res: BatchBuildResults)
        requires
            forall|i: int|
                0 <= i < self.entries().len() && (#[trigger] self.entries()[i]).outcome is Success
                    ==> call_requires(f, (&self.entries()[i].app,)),
        ensures
            res.entries().len() == self.entries().len(),
            forall|i: int|
                0 <= i < self.entries().len() ==> (#[trigger] res.entries()[i]).app
                    == self.entries()[i].app,
            forall|i: int|
                0 <= i < self.entries().len() && (#[trigger] self.entries()[i]).outcome is Failure
                    ==> res.entries()[i] == self.entries()[i],
            forall|i: int|
                0 <= i < self.entries().len() && (#[trigger] self.entries()[i]).outcome is Success
                    ==> call_ensures(f, (&self.entries()[i].app,), res.entries()[i].outcome),
    {
        let mut this = self;
        par_stage_entries(&mut this.results, &f);
        this
    }

    /// The number of entries in the ledger.
    pub fn len(&self) -> (n: usize)
        ensures
            n == self@.len(),
    {
        proof {
            assert(self@.len() == self.results@.len());
        }
        self.results.len()
    }

    /// The report for this ledger: one line per entry, in the ledger's
    /// current order.
    #[verifier::loop_isolation(false)]
    pub fn render_results(&self) -> (s: String)
        ensures
            s@ == report_text(self@),
    {
        let mut s = String::new();
        let mut i: usize = 0;
        while i < self.results.len()
            invariant
                i <= self@.len(),
                s@ == report_text(self@.take(i as int)),
            decreases self@.len() - i,
        {
            let ghost prefix = self@.take(i as int);
            let ghost line_start = s@;
            s.append("- ");
            s.append(self.results[i].app.name.as_str());
            match &self.results[i].outcome {
                Outcome::Success => {
                    s.append(": Success\n");
                },
                Outcome::Failure(m) => {
                    s.append(": Error: ");
                    s.append(m.as_str());
                    s.append("\n");
                },
            }
            proof {
                assert(self@[i as int] == self.results@[i as int]@);
                assert(s@ =~= line_start + report_line(self@[i as int]));
                lemma_report_text_push(prefix, self@[i as int]);
                assert(self@.take(i + 1) =~= prefix.push(self@[i as int]));
            }
            i = i + 1;
        }
        proof {
            assert(self@.take(self@.len() as int) =~= self@);
        }
        s
    }

    /// Print the report for this ledger to standard output, one line
    /// per entry, in the ledger's current order.
    pub fn print_results(&self) {
        let report = self.render_results();
        write_stdout(report.as_str());
    }

    /// Record one more (application, outcome) pair at the end of the
    /// ledger.
    pub fn record_result(&mut self, app: App, result: Outcome)
        ensures
            final(self)@ == old(self)@.push(AppResultView { app: app@, outcome: result@ }),
    {
        self.results.push(AppResult { app, outcome: result });
        proof {
            assert(self@ =~= old(self)@.push(
                AppResultView { app: app@, outcome: result@ },
            ));
        }
    }
}

/// Apply one transformation stage to one ledger entry: an entry
/// recording success gets the transform's outcome for its application,
/// an entry recording failure is left untouched.
fn stage_entry<F: Fn(&App) -> Outcome>(e: &mut AppResult, f: &F)
    requires
        old(e).outcome is Success ==> call_requires(*f, (&old(e).app,)),
    ensures
        final(e).app == old(e).app,
        old(e).outcome is Failure ==> *final(e) == *old(e),
        old(e).outcome is Success ==> call_ensures(*f, (&old(e).app,), final(e).outcome),
{
    if e.outcome.is_success() {
        let r = f(&e.app);
        e.outcome = r;
    }
}

/// Relies on rayon's `par_iter_mut` and `for_each`: the operation is
/// applied exactly once to a mutable reference to each element of the
/// vector, elements are handed to no other task, and the vector's length
/// and order are unchanged — so each element's final value is the result
/// of its own `stage_entry` application.
#[verifier::external_body]
fn par_stage_entries<F: Fn(&App) -> Outcome + Send + Sync>(entries: &mut Vec<AppResult>, f: &F)
    requires
        forall|i: int|
            0 <= i < old(entries)@.len() && (#[trigger] old(entries)@[i]).outcome is Success
                ==> call_requires(*f, (&old(entries)@[i].app,)),
    ensures
        final(entries)@.len() == old(entries)@.len(),
        forall|i: int|
            0 <= i < old(entries)@.len() ==> (#[trigger] final(entries)@[i]).app == old(
                entries,
            )@[i].app,
        forall|i: int|
            0 <= i < old(entries)@.len() && (#[trigger] old(entries)@[i]).outcome is Failure
                ==> final(entries)@[i] == old(entries)@[i],
        forall|i: int|
            0 <= i < old(entries)@.len() && (#[trigger] old(entries)@[i]).outcome is Success
                ==> call_ensures(*f, (&old(entries)@[i].app,), final(entries)@[i].outcome),
{
    entries.par_iter_mut().for_each(|e| stage_entry(e, f));
}

/// Relies on `std::io::Stdout`'s `Write::write_all`: writes the given
/// text to standard output.
#[verifier::external_body]
fn write_stdout(s: &str) {
    let _ = std::io::Write::write_all(&mut std::io::stdout(), s.as_bytes());
}

/// Insert one entry into a ledger vector that is sorted by application
/// name, keeping it sorted.
#[verifier::loop_isolation(false)]
fn insert_sorted(v: &mut Vec<AppResult>, e: AppResult)
    requires
        sorted_by_name(entry_views(old(v)@)),
    ensures
        sorted_by_name(entry_views(final(v)@)),
        entry_views(final(v)@).to_multiset() == entry_views(old(v)@).to_multiset().insert(e@),
        result_apps(entry_views(final(v)@)).to_multiset() == result_apps(
            entry_views(old(v)@),
        ).to_multiset().insert(e@.app),
{
    let ghost ov = entry_views(v@);
    proof {
        assert(ov.len() == v@.len());
        assert forall|k: int| 0 <= k < v@.len() implies ov[k] == v@[k]@ by {
            assert(entry_views(v@)[k] == v@[k]@);
        }
    }
    let mut p: usize = 0;
    let mut scanning = true;
    while scanning
        invariant
            p <= v@.len(),
            forall|k: int| 0 <= k < p ==> chars_le((#[trigger] ov[k]).app.name, e@.app.name),
            !scanning ==> p == v@.len() || !chars_le(ov[p as int].app.name, e@.app.name),
        decreases (if scanning { 1int } else { 0int }), v@.len() - p,
    {
        if p == v.len() {
            scanning = false;
        } else if !str_le(v[p].app.name.as_str(), e.app.name.as_str()) {
            scanning = false;
        } else {
            p = p + 1;
        }
    }
    v.insert(p, e);
    proof {
        let nv = entry_views(v@);
        assert(nv =~= ov.insert(p as int, e@));
        vstd::seq_lib::to_multiset_insert(ov, p as int, e@);
        assert(result_apps(nv) =~= result_apps(ov).insert(p as int, e@.app));
        vstd::seq_lib::to_multiset_insert(result_apps(ov), p as int, e@.app);
        assert forall|i: int, j: int| 0 <= i < j < nv.len() implies chars_le(
            nv[i].app.name,
            nv[j].app.name,
        ) by {
            let pi = p as int;
            if j < pi {
                assert(nv[i] == ov[i]);
                assert(nv[j] == ov[j]);
            } else if i < pi && j == pi {
                assert(nv[i] == ov[i]);
                assert(nv[j] == e@);
            } else if i == pi {
                assert(nv[i] == e@);
                assert(nv[j] == ov[j - 1]);
                lemma_chars_le_total(ov[pi].app.name, e@.app.name);
                if j > pi + 1 {
                    lemma_chars_le_trans(e@.app.name, ov[pi].app.name, ov[j - 1].app.name);
                }
            } else if i < pi {
                assert(nv[i] == ov[i]);
                assert(nv[j] == ov[j - 1]);
            } else {
                assert(nv[i] == ov[i - 1]);
                assert(nv[j] == ov[j - 1]);
            }
        }
    }
}

/// A copy of the given ledger entries, sorted by application name.
#[verifier::loop_isolation(false)]
fn sorted_copy(v: &Vec<AppResult>) -> (r: Vec<AppResult>)
    ensures
        sorted_by_name(entry_views(r@)),
        entry_views(r@).to_multiset() == entry_views(v@).to_multiset(),
        result_apps(entry_views(r@)).to_multiset() == result_apps(entry_views(v@)).to_multiset(),
{
    let mut out: Vec<AppResult> = Vec::new();
    let mut i: usize = 0;
    proof {
        assert(entry_views(out@) =~= Seq::<AppResultView>::empty());
        assert(entry_views(v@.take(0)) =~= Seq::<AppResultView>::empty());
        assert(entry_views(out@).to_multiset() =~= entry_views(v@.take(0)).to_multiset());
        assert(result_apps(entry_views(out@)).to_multiset() =~= result_apps(
            entry_views(v@.take(0)),
        ).to_multiset());
    }
    while i < v.len()
        invariant
            i <= v@.len(),
            sorted_by_name(entry_views(out@)),
            entry_views(out@).to_multiset() == entry_views(v@.take(i as int)).to_multiset(),
            result_apps(entry_views(out@)).to_multiset() == result_apps(
                entry_views(v@.take(i as int)),
            ).to_multiset(),
        decreases v@.len() - i,
    {
        let ghost prefix = entry_views(v@.take(i as int));
        insert_sorted(&mut out, v[i].clone());
        proof {
            let next = entry_views(v@.take(i + 1));
            assert(next =~= prefix.push(v@[i as int]@));
            vstd::seq_lib::to_multiset_build(prefix, v@[i as int]@);
            assert(next.to_multiset() == prefix.to_multiset().insert(v@[i as int]@));
            assert(result_apps(next) =~= result_apps(prefix).push(v@[i as int]@.app));
            vstd::seq_lib::to_multiset_build(result_apps(prefix), v@[i as int]@.app);
            assert(result_apps(next).to_multiset() == result_apps(prefix).to_multiset().insert(
                v@[i as int]@.app,
            ));
        }
        i = i + 1;
    }
    proof {
        assert(v@.take(v@.len() as int) =~= v@);
    }
    out
}

/// Batch of applications to process, together with the action to take.
pub struct BatchLingoCommand {
    /// The applications to process.
    pub apps: Vec<App>,
    /// The action to apply to every application.
    pub task: CommandSpec,
}

impl BatchLingoCommand {
    /// Re-scope this batch to another application set, keeping the task.
    pub fn with_apps(&self, apps: Vec<App>) -> (c: BatchLingoCommand)
        ensures
            c.apps == apps,
            c.task@ == self.task@,
    {
        BatchLingoCommand { apps, task: self.task.clone() }
    }

    /// The starting ledger for this batch: one success placeholder per
    /// application, before any stage has run.
    pub fn new_results(&self) -> (r: BatchBuildResults)
        ensures
            r@.len() == self.apps@.len(),
            forall|i: int|
                0 <= i < self.apps@.len() ==> (#[trigger] r@[i]).app == self.apps@[i]@
                    && r@[i].outcome is Success,
    {
        BatchBuildResults::for_apps(&self.apps)
    }
}

/// One transformation stage at the specification level: with `g` giving
/// the transform's outcome for every application, `after` is `before`
/// with every success entry's outcome replaced by `g` of its
/// application, and every failure entry untouched.
pub open spec fn stage_view(
    before: Seq<AppResultView>,
    after: Seq<AppResultView>,
    g: spec_fn(AppView) -> OutcomeView,
) -> bool {
    &&& after.len() == before.len()
    &&& forall|i: int| 0 <= i < before.len() ==> (#[trigger] after[i]).app == before[i].app
    &&& forall|i: int|
        0 <= i < before.len() && (#[trigger] before[i]).outcome is Failure ==> after[i]
            == before[i]
    &&& forall|i: int|
        0 <= i < before.len() && (#[trigger] before[i]).outcome is Success ==> after[i].outcome
            == g(before[i].app)
}

/// A stage run through [`BatchBuildResults::map`] or
/// [`BatchBuildResults::par_map`] satisfies [`stage_view`], provided the
/// transform's outcome is a function `g` of the application alone.
pub proof fn lemma_stage_entries_view<F: Fn(&App) -> Outcome>(
    before: Seq<AppResult>,
    after: Seq<AppResult>,
    f: F,
    g: spec_fn(AppView) -> OutcomeView,
)
    requires
        forall|a: App, r: Outcome| call_ensures(f, (&a,), r) ==> r@ == g(a@),
        after.len() == before.len(),
        forall|i: int| 0 <= i < before.len() ==> (#[trigger] after[i]).app == before[i].app,
        forall|i: int|
            0 <= i < before.len() && (#[trigger] before[i]).outcome is Failure ==> after[i]
                == before[i],
        forall|i: int|
            0 <= i < before.len() && (#[trigger] before[i]).outcome is Success ==> call_ensures(
                f,
                (&before[i].app,),
                after[i].outcome,
            ),
    ensures
        stage_view(entry_views(before), entry_views(after), g),
{
    assert forall|i: int|
        0 <= i < before.len() && (#[trigger] entry_views(before)[i]).outcome
            is Success implies entry_views(after)[i].outcome == g(
        entry_views(before)[i].app,
    ) by {
        assert(call_ensures(f, (&before[i].app,), after[i].outcome));
    }
}

/// Law: the parallel and the sequential execution path of one stage are
/// outcome-equivalent. For a transform whose outcome is a function `g`
/// of the application alone — the only transforms allowed, since
/// cross-application shared state is ruled out — any two ledgers that a
/// stage can produce from the same starting ledger are equal.
pub proof fn lemma_par_map_equiv_map(
    before: Seq<AppResultView>,
    seq_after: Seq<AppResultView>,
    par_after: Seq<AppResultView>,
    g: spec_fn(AppView) -> OutcomeView,
)
    requires
        stage_view(before, seq_after, g),
        stage_view(before, par_after, g),
    ensures
        seq_after == par_after,
{
    assert forall|i: int| 0 <= i < before.len() implies seq_after[i] == par_after[i] by {
        if before[i].outcome is Success {
            assert(seq_after[i].outcome == g(before[i].app));
            assert(par_after[i].outcome == g(before[i].app));
            assert(seq_after[i] == AppResultView {
                app: seq_after[i].app,
                outcome: seq_after[i].outcome,
            });
            assert(par_after[i] == AppResultView {
                app: par_after[i].app,
                outcome: par_after[i].outcome,
            });
        }
    }
    assert(seq_after =~= par_after);
}

/// The trait all build backends implement. A backend applies the
/// batch's task to every application of the batch handed to it and
/// returns a ledger covering exactly those applications, in the batch's
/// order; per-application failures become failure outcomes, never
/// aborts.
pub trait BatchBackend {
    /// Process all applications of the batch, possibly in parallel.
    fn execute_command(&mut self, command: BatchLingoCommand) -> (r: BatchBuildResults)
        ensures
            r@.len() == command.apps@.len(),
            forall|i: int|
                0 <= i < command.apps@.len() ==> (#[trigger] r@[i]).app == command.apps@[i]@,
    ;
}

/// The fatal condition of a batch invocation: a requested build-system
/// kind has no implemented backend. This aborts the whole batch and is
/// never recorded as a per-application failure.
#[derive(Clone, Copy, PartialEq, Eq, Structural, Debug)]
pub enum DispatchError {
    /// No backend is registered for the named build-system kind.
    MissingBackend(BuildSystem),
}

/// Dispatch a batch: partition its applications by build-system kind,
/// hand each non-empty partition to the backend of that kind, and merge
/// the returned ledgers into one, sorted by application name for
/// deterministic reporting.
///
/// A batch that names the build-system kind without an implemented
/// backend fails as a whole, before any backend runs: no partial
/// results are produced.
#[verifier::loop_isolation(false)]
pub fn execute_command<L: BatchBackend, C: BatchBackend>(
    command: BatchLingoCommand,
    lfc_backend: &mut L,
    cmake_backend: &mut C,
) -> (r: Result<BatchBuildResults, DispatchError>)
    ensures
        (r is Err) <==> (exists|i: int|
            0 <= i < command.apps@.len() && (#[trigger] command.apps@[i]).build_system is Cargo),
        r matches Err(e) ==> e == DispatchError::MissingBackend(BuildSystem::Cargo),
        r matches Ok(led) ==> sorted_by_name(led@) && result_apps(led@).to_multiset() == app_views(
            command.apps@,
        ).to_multiset(),
{
    broadcast use vstd::multiset::group_multiset_axioms;
    broadcast use vstd::seq_lib::group_to_multiset_ensures;

    let mut i: usize = 0;
    while i < command.apps.len()
        invariant
            i <= command.apps@.len(),
            forall|j: int| 0 <= j < i ==> !((#[trigger] command.apps@[j]).build_system is Cargo),
        decreases command.apps@.len() - i,
    {
        if command.apps[i].build_system == BuildSystem::Cargo {
            return Err(DispatchError::MissingBackend(BuildSystem::Cargo));
        }
        i = i + 1;
    }
    let ghost av = app_views(command.apps@);
    proof {
        assert(forall|j: int| 0 <= j < av.len() ==> !((#[trigger] av[j]).build_system is Cargo));
        lemma_partition_complete(av);
    }
    let lfc_apps = apps_of_kind(&command.apps, BuildSystem::LFC);
    let cmake_apps = apps_of_kind(&command.apps, BuildSystem::CMake);
    let ghost ml = app_views(lfc_apps@).to_multiset();
    let ghost mc = app_views(cmake_apps@).to_multiset();
    let mut result = BatchBuildResults::new();
    proof {
        assert(result_apps(result@) =~= Seq::<AppView>::empty());
        assert(result_apps(result@).to_multiset() =~= Multiset::<AppView>::empty());
    }
    if lfc_apps.len() > 0 {
        let sub = lfc_backend.execute_command(command.with_apps(lfc_apps));
        proof {
            assert(result_apps(sub@) =~= app_views(lfc_apps@));
        }
        result.append(sub);
        proof {
            assert(result_apps(result@).to_multiset() =~= ml);
        }
    } else {
        proof {
            assert(app_views(lfc_apps@) =~= Seq::<AppView>::empty());
            assert(result_apps(result@).to_multiset() =~= ml);
        }
    }
    if cmake_apps.len() > 0 {
        let sub = cmake_backend.execute_command(command.with_apps(cmake_apps));
        proof {
            assert(result_apps(sub@) =~= app_views(cmake_apps@));
        }
        result.append(sub);
        proof {
            assert(result_apps(result@).to_multiset() =~= ml.add(mc));
        }
    } else {
        proof {
            assert(app_views(cmake_apps@) =~= Seq::<AppView>::empty());
            assert(mc =~= Multiset::<AppView>::empty());
            assert(result_apps(result@).to_multiset() =~= ml.add(mc));
        }
    }
    Ok(result)
}

} // verus!
