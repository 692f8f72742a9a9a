//! The `--install` and `--uninstall` commands: which registrations are
//! written or removed, in which order, and the exit code.
//!
//! Exit codes, which the installer reads:
//! - `0` success
//! - `2` the module was not found (install only)
//! - `3` a class could not be registered
//! - `4` an extension could not be bound

use vstd::prelude::*;

verus! {

pub const EXIT_OK: i32 = 0;

pub const EXIT_DLL_NOT_FOUND: i32 = 2;

pub const EXIT_CLSID_FAILED: i32 = 3;

pub const EXIT_EXTENSION_FAILED: i32 = 4;

/// Where registrations are written.
#[derive(Debug, Clone, Copy, PartialEq, Eq, Structural)]
pub enum Scope {
    PerUser,
    PerMachine,
}

/// Both places, in the order in which they are cleaned.
pub const ALL_SCOPES: [Scope; 2] = [Scope::PerMachine, Scope::PerUser];

/// File extensions that thumbnails and previews are bound to.
pub const EXTENSIONS: [&'static str; 13] = [
    ".zip",
    ".cbz",
    ".rar",
    ".cbr",
    ".7z",
    ".cb7",
    ".cbt",
    ".livp",
    ".epub",
    ".fb2",
    ".mobi",
    ".azw",
    ".azw3",
];

/// A change to the registrations. `P` is the path of a module.
pub enum CliCall<P> {
    RegisterClsid(Scope, P),
    RegisterPreviewClsid(Scope, P),
    RegisterPreviewHandlerListEntry(Scope),
    RegisterExtension(Scope, Seq<char>),
    RegisterPreviewExtension(Scope, Seq<char>),
    UnregisterExtension(Scope, Seq<char>),
    UnregisterPreviewExtension(Scope, Seq<char>),
    UnregisterClsid(Scope),
    UnregisterPreviewClsid(Scope),
    UnregisterPreviewHandlerListEntry(Scope),
}

/// What happened while a command ran.
pub enum CliEvent<P> {
    /// The module was looked for, and found or not.
    DllPath(Option<P>),
    /// The place for registrations was determined.
    Scope(Scope),
    /// A change was attempted, with success or not.
    Call(CliCall<P>, bool),
    /// The file manager was told to reload its associations.
    Notified,
}

/// The effects that the commands need. Every call is one event, with the
/// arguments that were given and the result that came back.
pub trait CliOps {
    /// The path of a module.
    type DllPath;

    /// Everything that was called so far, in order. An implementation
    /// meets the contracts below only with a log of its own: this one
    /// does not grow, and stands here for code that is not verified.
    open spec fn log(&self) -> Seq<CliEvent<Self::DllPath>> {
        Seq::empty()
    }

    fn resolve_dll_path(&mut self) -> (path: Result<Self::DllPath, String>)
        ensures
            final(self).log() == old(self).log().push(CliEvent::DllPath(found(path))),
    ;

    fn current_scope(&mut self) -> (scope: Scope)
        ensures
            final(self).log() == old(self).log().push(CliEvent::Scope(scope)),
    ;

    fn register_clsid(&mut self, scope: Scope, dll_path: &Self::DllPath) -> (status: Result<(), String>)
        ensures
            final(self).log() == old(self).log().push(
                CliEvent::Call(CliCall::RegisterClsid(scope, *dll_path), status is Ok),
            ),
    ;

    fn register_preview_clsid(&mut self, scope: Scope, dll_path: &Self::DllPath) -> (status: Result<(), String>)
        ensures
            final(self).log() == old(self).log().push(
                CliEvent::Call(CliCall::RegisterPreviewClsid(scope, *dll_path), status is Ok),
            ),
    ;

    fn register_preview_handler_list_entry(&mut self, scope: Scope) -> (status: Result<(), String>)
        ensures
            final(self).log() == old(self).log().push(
                CliEvent::Call(CliCall::RegisterPreviewHandlerListEntry(scope), status is Ok),
            ),
    ;

    fn register_extension(&mut self, scope: Scope, ext: &'static str) -> (status: Result<(), String>)
        ensures
            final(self).log() == old(self).log().push(
                CliEvent::Call(CliCall::RegisterExtension(scope, ext@), status is Ok),
            ),
    ;

    fn register_preview_extension(&mut self, scope: Scope, ext: &'static str) -> (status: Result<(), String>)
        ensures
            final(self).log() == old(self).log().push(
                CliEvent::Call(CliCall::RegisterPreviewExtension(scope, ext@), status is Ok),
            ),
    ;

    fn unregister_extension(&mut self, scope: Scope, ext: &'static str) -> (status: Result<(), String>)
        ensures
            final(self).log() == old(self).log().push(
                CliEvent::Call(CliCall::UnregisterExtension(scope, ext@), status is Ok),
            ),
    ;

    fn unregister_preview_extension(&mut self, scope: Scope, ext: &'static str) -> (status: Result<(), String>)
        ensures
            final(self).log() == old(self).log().push(
                CliEvent::Call(CliCall::UnregisterPreviewExtension(scope, ext@), status is Ok),
            ),
    ;

    fn unregister_clsid(&mut self, scope: Scope) -> (status: Result<(), String>)
        ensures
            final(self).log() == old(self).log().push(
                CliEvent::Call(CliCall::UnregisterClsid(scope), status is Ok),
            ),
    ;

    fn unregister_preview_clsid(&mut self, scope: Scope) -> (status: Result<(), String>)
        ensures
            final(self).log() == old(self).log().push(
                CliEvent::Call(CliCall::UnregisterPreviewClsid(scope), status is Ok),
            ),
    ;

    fn unregister_preview_handler_list_entry(&mut self, scope: Scope) -> (status: Result<(), String>)
        ensures
            final(self).log() == old(self).log().push(
                CliEvent::Call(CliCall::UnregisterPreviewHandlerListEntry(scope), status is Ok),
            ),
    ;

    fn notify_assoc_changed(&mut self)
        ensures
            final(self).log() == old(self).log().push(CliEvent::Notified),
    ;
}

/// The path of a module that was looked for, if it was found.
pub open spec fn found<P>(path: Result<P, String>) -> Option<P> {
    match path {
        Ok(path) => Some(path),
        Err(_) => None,
    }
}

/// Change number `n` of an installation: both classes and the entry
/// in the list of preview handlers, then both bindings of each
/// extension.
pub open spec fn install_call<P>(scope: Scope, path: P, n: int) -> CliCall<P> {
    if n == 0 {
        CliCall::RegisterClsid(scope, path)
    } else if n == 1 {
        CliCall::RegisterPreviewClsid(scope, path)
    } else if n == 2 {
        CliCall::RegisterPreviewHandlerListEntry(scope)
    } else if n % 2 == 1 {
        CliCall::RegisterExtension(scope, EXTENSIONS@[(n - 3) / 2]@)
    } else {
        CliCall::RegisterPreviewExtension(scope, EXTENSIONS@[(n - 3) / 2]@)
    }
}

/// Number of changes that an installation makes.
pub open spec fn install_count() -> int {
    3 + 2 * EXTENSIONS@.len() as int
}

/// The events of an installation in which the first `n` changes
/// succeed.
pub open spec fn installed<P>(scope: Scope, path: P, n: int) -> Seq<CliEvent<P>> {
    seq![CliEvent::DllPath(Some(path)), CliEvent::Scope(scope)] + Seq::new(
        n as nat,
        |k: int| CliEvent::Call(install_call(scope, path, k), true),
    )
}

/// Exit code of an installation whose change number `n` fails.
pub open spec fn failure_code(n: int) -> i32 {
    if n < 3 {
        EXIT_CLSID_FAILED
    } else {
        EXIT_EXTENSION_FAILED
    }
}

/// What an installation does and returns. Without the module nothing is
/// changed. Otherwise the changes are made in order until one fails; the
/// file manager is told only once all have succeeded.
pub open spec fn install_outcome<P>(events: Seq<CliEvent<P>>, code: i32) -> bool {
    ||| events == seq![CliEvent::<P>::DllPath(None)] && code == EXIT_DLL_NOT_FOUND
    ||| exists|scope: Scope, path: P|
        {
            &&& events == (#[trigger] installed(scope, path, install_count())).push(
                CliEvent::Notified,
            )
            &&& code == EXIT_OK
        }
    ||| exists|scope: Scope, path: P, n: int|
        {
            &&& 0 <= n < install_count()
            &&& events == (#[trigger] installed(scope, path, n)).push(
                CliEvent::Call(install_call(scope, path, n), false),
            )
            &&& code == failure_code(n)
        }
}

/// Change number `n` in the cleaning of one place: both bindings of each
/// extension, then the list entry and both classes.
pub open spec fn cleaning_call<P>(scope: Scope, n: int) -> CliCall<P> {
    if n < 2 * EXTENSIONS@.len() {
        if n % 2 == 0 {
            CliCall::UnregisterExtension(scope, EXTENSIONS@[n / 2]@)
        } else {
            CliCall::UnregisterPreviewExtension(scope, EXTENSIONS@[n / 2]@)
        }
    } else if n == 2 * EXTENSIONS@.len() {
        CliCall::UnregisterPreviewHandlerListEntry(scope)
    } else if n == 2 * EXTENSIONS@.len() + 1 {
        CliCall::UnregisterClsid(scope)
    } else {
        CliCall::UnregisterPreviewClsid(scope)
    }
}

/// Number of changes in the cleaning of one place.
pub open spec fn cleaning_count() -> int {
    2 * EXTENSIONS@.len() as int + 3
}

/// Did the first `n` changes of a cleaning happen from `from` on,
/// successful or not?
pub open spec fn cleaned<P>(events: Seq<CliEvent<P>>, from: int, scope: Scope, n: int) -> bool {
    forall|k: int|
        0 <= k < n ==> ((#[trigger] events[from + k]) matches CliEvent::Call(call, _) && call
            == cleaning_call::<P>(scope, k))
}

/// What a removal does: every registration is removed from both places,
/// whatever fails, and then the file manager is told.
pub open spec fn uninstall_outcome<P>(events: Seq<CliEvent<P>>) -> bool {
    &&& events.len() == 2 * cleaning_count() + 1
    &&& cleaned(events, 0, Scope::PerMachine, cleaning_count())
    &&& cleaned(events, cleaning_count(), Scope::PerUser, cleaning_count())
    &&& events.last() == CliEvent::<P>::Notified
}

proof fn lemma_installed_step<P>(scope: Scope, path: P, n: int)
    requires
        n >= 0,
    ensures
        installed(scope, path, n + 1) == installed(scope, path, n).push(
            CliEvent::Call(install_call(scope, path, n), true),
        ),
{
    assert(installed(scope, path, n + 1) =~= installed(scope, path, n).push(
        CliEvent::Call(install_call(scope, path, n), true),
    ));
}

/// Writes every registration to the place that the process may write to.
pub fn run_install<O: CliOps>(ops: &mut O) -> (code: i32)
    ensures
        exists|events: Seq<CliEvent<O::DllPath>>|
            final(ops).log() == old(ops).log() + events && #[trigger] install_outcome(
                events,
                code,
            ),
        code == EXIT_OK ==> exists|scope: Scope|
            #[trigger] final(ops).log().contains(CliEvent::Scope(scope)) && forall|k: int|
                #![trigger EXTENSIONS@[k]]
                0 <= k < EXTENSIONS@.len() ==> final(ops).log().contains(
                    CliEvent::Call(CliCall::RegisterExtension(scope, EXTENSIONS@[k]@), true),
                ) && final(ops).log().contains(
                    CliEvent::Call(CliCall::RegisterPreviewExtension(scope, EXTENSIONS@[k]@), true),
                ),
{
    let ghost base = ops.log();
    let dll_path = match ops.resolve_dll_path() {
        Ok(path) => path,
        Err(_) => {
            proof {
                let events = seq![CliEvent::DllPath(None)];
                assert(ops.log() =~= base + events);
                assert(install_outcome(events, EXIT_DLL_NOT_FOUND));
            }
            return EXIT_DLL_NOT_FOUND;
        },
    };
    let scope = ops.current_scope();
    let ghost path = dll_path;
    proof {
        assert(ops.log() =~= base + installed(scope, path, 0));
    }
    if ops.register_clsid(scope, &dll_path).is_err() {
        proof {
            lemma_install_failed(base, ops.log(), scope, path, 0);
        }
        return EXIT_CLSID_FAILED;
    }
    proof {
        lemma_installed_step(scope, path, 0);
        assert(ops.log() =~= base + installed(scope, path, 1));
    }
    if ops.register_preview_clsid(scope, &dll_path).is_err() {
        proof {
            lemma_install_failed(base, ops.log(), scope, path, 1);
        }
        return EXIT_CLSID_FAILED;
    }
    proof {
        lemma_installed_step(scope, path, 1);
        assert(ops.log() =~= base + installed(scope, path, 2));
    }
    if ops.register_preview_handler_list_entry(scope).is_err() {
        proof {
            lemma_install_failed(base, ops.log(), scope, path, 2);
        }
        return EXIT_CLSID_FAILED;
    }
    proof {
        lemma_installed_step(scope, path, 2);
        assert(ops.log() =~= base + installed(scope, path, 3));
    }
    let mut k: usize = 0;
    while k < 13
        invariant
            k <= 13,
            base == old(ops).log(),
            ops.log() == base + installed(scope, path, 3 + 2 * k),
        decreases 13 - k,
    {
        if ops.register_extension(scope, EXTENSIONS[k]).is_err() {
            proof {
                lemma_install_failed(base, ops.log(), scope, path, 3 + 2 * k);
            }
            return EXIT_EXTENSION_FAILED;
        }
        proof {
            lemma_installed_step(scope, path, 3 + 2 * k);
            assert(ops.log() =~= base + installed(scope, path, 4 + 2 * k));
        }
        if ops.register_preview_extension(scope, EXTENSIONS[k]).is_err() {
            proof {
                lemma_install_failed(base, ops.log(), scope, path, 4 + 2 * k);
            }
            return EXIT_EXTENSION_FAILED;
        }
        proof {
            lemma_installed_step(scope, path, 4 + 2 * k);
            assert(ops.log() =~= base + installed(scope, path, 5 + 2 * k));
        }
        k += 1;
    }
    ops.notify_assoc_changed();
    proof {
        let events = installed(scope, path, install_count()).push(CliEvent::Notified);
        assert(ops.log() =~= base + events);
        assert(install_outcome(events, EXIT_OK));
        lemma_success_is_logged(base, ops.log(), events);
    }
    EXIT_OK
}

proof fn lemma_success_is_logged<P>(
    base: Seq<CliEvent<P>>,
    history: Seq<CliEvent<P>>,
    events: Seq<CliEvent<P>>,
)
    requires
        install_outcome(events, EXIT_OK),
        history == base + events,
    ensures
        exists|scope: Scope|
            #[trigger] history.contains(CliEvent::Scope(scope)) && forall|k: int|
                #![trigger EXTENSIONS@[k]]
                0 <= k < EXTENSIONS@.len() ==> history.contains(
                    CliEvent::Call(CliCall::RegisterExtension(scope, EXTENSIONS@[k]@), true),
                ) && history.contains(
                    CliEvent::Call(CliCall::RegisterPreviewExtension(scope, EXTENSIONS@[k]@), true),
                ),
{
    successful_install_registers_everything(events, EXIT_OK);
    let n = base.len() as int;
    let scope = events[1]->Scope_0;
    assert(history[n + 1] == CliEvent::<P>::Scope(scope));
    assert(history.contains(CliEvent::Scope(scope)));
    assert forall|j: int|
        #![trigger EXTENSIONS@[j]]
        0 <= j < EXTENSIONS@.len() implies history.contains(
        CliEvent::Call(CliCall::RegisterExtension(scope, EXTENSIONS@[j]@), true),
    ) && history.contains(
        CliEvent::Call(CliCall::RegisterPreviewExtension(scope, EXTENSIONS@[j]@), true),
    ) by {
        assert(history[n + 5 + 2 * j] == events[5 + 2 * j]);
        assert(history[n + 6 + 2 * j] == events[6 + 2 * j]);
    }
}

proof fn lemma_install_failed<P>(
    base: Seq<CliEvent<P>>,
    history: Seq<CliEvent<P>>,
    scope: Scope,
    path: P,
    n: int,
)
    requires
        0 <= n < install_count(),
        history == (base + installed(scope, path, n)).push(
            CliEvent::Call(install_call(scope, path, n), false),
        ),
    ensures
        exists|events: Seq<CliEvent<P>>|
            history == base + events && #[trigger] install_outcome(events, failure_code(n)),
{
    let events = installed(scope, path, n).push(
        CliEvent::Call(install_call(scope, path, n), false),
    );
    assert(history =~= base + events);
    assert(install_outcome(events, failure_code(n)));
}

/// Does `history` consist of `base` and then the first `n` changes of a
/// cleaning?
pub open spec fn cleaned_after<P>(
    base: Seq<CliEvent<P>>,
    history: Seq<CliEvent<P>>,
    scope: Scope,
    n: int,
) -> bool {
    &&& history.len() == base.len() + n
    &&& history.take(base.len() as int) == base
    &&& cleaned(history, base.len() as int, scope, n)
}

proof fn lemma_cleaned_step<P>(
    base: Seq<CliEvent<P>>,
    history: Seq<CliEvent<P>>,
    scope: Scope,
    n: int,
    ok: bool,
)
    requires
        n >= 0,
        cleaned_after(base, history, scope, n),
    ensures
        cleaned_after(
            base,
            history.push(CliEvent::Call(cleaning_call(scope, n), ok)),
            scope,
            n + 1,
        ),
{
    let longer = history.push(CliEvent::Call(cleaning_call(scope, n), ok));
    assert(longer.take(base.len() as int) =~= history.take(base.len() as int));
    assert forall|k: int| 0 <= k < n + 1 implies ((#[trigger] longer[base.len() + k])
        matches CliEvent::Call(call, _) && call == cleaning_call::<P>(scope, k)) by {
        if k < n {
            assert(longer[base.len() + k] == history[base.len() + k]);
        }
    }
}

/// Removes every registration from one place, whatever fails.
fn clean_scope<O: CliOps>(ops: &mut O, scope: Scope)
    ensures
        cleaned_after(old(ops).log(), final(ops).log(), scope, cleaning_count()),
{
    let ghost base = ops.log();
    let mut k: usize = 0;
    proof {
        assert(ops.log().take(base.len() as int) =~= base);
    }
    while k < 13
        invariant
            k <= 13,
            cleaned_after(base, ops.log(), scope, 2 * k as int),
        decreases 13 - k,
    {
        let ghost before = ops.log();
        let status = ops.unregister_extension(scope, EXTENSIONS[k]);
        proof {
            lemma_cleaned_step(base, before, scope, 2 * k as int, status is Ok);
        }
        let ghost between = ops.log();
        let status = ops.unregister_preview_extension(scope, EXTENSIONS[k]);
        proof {
            lemma_cleaned_step(base, between, scope, 2 * k + 1, status is Ok);
        }
        k += 1;
    }
    let ghost before = ops.log();
    let status = ops.unregister_preview_handler_list_entry(scope);
    proof {
        lemma_cleaned_step(base, before, scope, 26, status is Ok);
    }
    let ghost before = ops.log();
    let status = ops.unregister_clsid(scope);
    proof {
        lemma_cleaned_step(base, before, scope, 27, status is Ok);
    }
    let ghost before = ops.log();
    let status = ops.unregister_preview_clsid(scope);
    proof {
        lemma_cleaned_step(base, before, scope, 28, status is Ok);
    }
}

/// Removes every registration from both places: an installation for
/// everybody may follow one for a single user, or the other way round.
pub fn run_uninstall<O: CliOps>(ops: &mut O) -> (code: i32)
    ensures
        code == EXIT_OK,
        exists|events: Seq<CliEvent<O::DllPath>>|
            final(ops).log() == old(ops).log() + events && #[trigger] uninstall_outcome(
                events,
            ),
{
    let ghost base = ops.log();
    clean_scope(ops, ALL_SCOPES[0]);
    let ghost machine = ops.log();
    clean_scope(ops, ALL_SCOPES[1]);
    let ghost user = ops.log();
    ops.notify_assoc_changed();
    proof {
        let history = ops.log();
        let n = base.len() as int;
        let events = history.skip(n);
        assert forall|k: int| 0 <= k < machine.len() implies history[k] == machine[k] by {
            assert(user.take(machine.len() as int)[k] == machine[k]);
        }
        assert(history =~= base + events) by {
            assert forall|k: int| 0 <= k < n implies history[k] == base[k] by {
                assert(machine.take(n)[k] == base[k]);
            }
        }
        assert forall|k: int| 0 <= k < cleaning_count() implies ((#[trigger] events[0 + k])
            matches CliEvent::Call(call, _) && call == cleaning_call::<O::DllPath>(Scope::PerMachine, k)) by {
            assert(events[0 + k] == machine[n + k]);
        }
        assert forall|k: int| 0 <= k < cleaning_count() implies ((#[trigger] events[
            cleaning_count() + k]) matches CliEvent::Call(call, _) && call == cleaning_call::<O::DllPath>(
            Scope::PerUser,
            k,
        )) by {
            assert(events[cleaning_count() + k] == user[machine.len() + k]);
        }
        assert(uninstall_outcome(events));
    }
    EXIT_OK
}

/// An installation ends with one of four exit codes, and the file
/// manager is told to reload exactly when everything was registered.
/// Without the module nothing is changed.
pub proof fn install_notifies_on_success_only<P>(events: Seq<CliEvent<P>>, code: i32)
    requires
        install_outcome(events, code),
    ensures
        code == EXIT_OK || code == EXIT_DLL_NOT_FOUND || code == EXIT_CLSID_FAILED || code
            == EXIT_EXTENSION_FAILED,
        events.contains(CliEvent::Notified) <==> code == EXIT_OK,
        code == EXIT_DLL_NOT_FOUND ==> events.len() == 1,
{
    if code == EXIT_OK {
        assert(events[events.len() - 1] == CliEvent::<P>::Notified);
    } else if events.contains(CliEvent::Notified) {
        let k = choose|k: int| 0 <= k < events.len() && events[k] == CliEvent::<P>::Notified;
        assert(events[k] == CliEvent::<P>::Notified);
    }
}

/// Did everything that was attempted succeed?
pub open spec fn nothing_failed<P>(events: Seq<CliEvent<P>>) -> bool {
    forall|k: int| 0 <= k < events.len() ==> match #[trigger] events[k] {
        CliEvent::DllPath(path) => path is Some,
        CliEvent::Call(_, ok) => ok,
        _ => true,
    }
}

/// The exit code tells what happened: success exactly if nothing failed,
/// and then every change was made, in order. Otherwise the last event is
/// the one that failed, and everything before it succeeded: nothing is
/// tried again or taken back.
pub proof fn install_stops_at_the_first_failure<P>(events: Seq<CliEvent<P>>, code: i32)
    requires
        install_outcome(events, code),
    ensures
        code == EXIT_OK <==> nothing_failed(events),
        code == EXIT_OK ==> exists|scope: Scope, path: P|
            events == (#[trigger] installed(scope, path, install_count())).push(
                CliEvent::Notified,
            ),
        code != EXIT_OK ==> nothing_failed(events.drop_last()),
        code == EXIT_DLL_NOT_FOUND <==> events.last() == CliEvent::<P>::DllPath(None),
        code == EXIT_CLSID_FAILED ==> 3 <= events.len() <= 5,
        code == EXIT_EXTENSION_FAILED ==> events.len() > 5,
{
    if events != seq![CliEvent::<P>::DllPath(None)] {
        if code == EXIT_OK {
            let (scope, path) = choose|scope: Scope, path: P|
                events == (#[trigger] installed(scope, path, install_count())).push(
                    CliEvent::Notified,
                );
            assert(events == installed(scope, path, install_count()).push(CliEvent::Notified));
        } else {
            let last = events.len() - 1;
            assert(!nothing_failed(events)) by {
                assert(events[last] matches CliEvent::Call(_, ok) && !ok);
            }
        }
    } else {
        assert(events[0] == CliEvent::<P>::DllPath(None));
    }
}

/// Does the second change take back the first one?
pub open spec fn takes_back<P>(made: CliCall<P>, removed: CliCall<P>) -> bool {
    match (made, removed) {
        (CliCall::RegisterClsid(a, _), CliCall::UnregisterClsid(b)) => a == b,
        (CliCall::RegisterPreviewClsid(a, _), CliCall::UnregisterPreviewClsid(b)) => a == b,
        (
            CliCall::RegisterPreviewHandlerListEntry(a),
            CliCall::UnregisterPreviewHandlerListEntry(b),
        ) => a == b,
        (CliCall::RegisterExtension(a, x), CliCall::UnregisterExtension(b, y)) => a == b && x == y,
        (
            CliCall::RegisterPreviewExtension(a, x),
            CliCall::UnregisterPreviewExtension(b, y),
        ) => a == b && x == y,
        _ => false,
    }
}

/// A removal takes back every change that an installation can have made,
/// whichever place it wrote to.
pub proof fn uninstall_takes_back_install<P>(
    events: Seq<CliEvent<P>>,
    scope: Scope,
    path: P,
    n: int,
)
    requires
        uninstall_outcome(events),
        0 <= n < install_count(),
    ensures
        exists|k: int|
            0 <= k < events.len() && ((#[trigger] events[k]) matches CliEvent::Call(call, _)
                && takes_back(install_call(scope, path, n), call)),
{
    let from = if scope == Scope::PerMachine {
        0
    } else {
        cleaning_count()
    };
    let k = if n == 0 {
        27
    } else if n == 1 {
        28
    } else if n == 2 {
        26
    } else {
        n - 3
    };
    assert(cleaned(events, from, scope, cleaning_count()));
    assert(events[from + k] matches CliEvent::Call(call, _) && call == cleaning_call::<P>(scope, k));
    assert(takes_back(install_call(scope, path, n), cleaning_call(scope, k)));
}

/// An installation that succeeds has found the module, asked once for
/// the place, registered there, for that module, both classes and the
/// list entry, bound both the thumbnails and the previews of every
/// extension, and told the file manager last. Every change succeeded,
/// and there was no other one.
pub proof fn successful_install_registers_everything<P>(events: Seq<CliEvent<P>>, code: i32)
    requires
        install_outcome(events, code),
        code == 0,
    ensures
        events.len() == 32,
        events[0] matches CliEvent::DllPath(Some(_)),
        events[1] is Scope,
        events[0] matches CliEvent::DllPath(Some(path)) ==> events[1] matches CliEvent::Scope(scope)
            ==> {
            &&& events[2] == CliEvent::Call(CliCall::RegisterClsid(scope, path), true)
            &&& events[3] == CliEvent::Call(CliCall::RegisterPreviewClsid(scope, path), true)
            &&& events[4] == CliEvent::Call(
                CliCall::<P>::RegisterPreviewHandlerListEntry(scope),
                true,
            )
            &&& forall|k: int|
                #![trigger EXTENSIONS@[k]]
                0 <= k < 13 ==> events[5 + 2 * k] == CliEvent::Call(
                    CliCall::<P>::RegisterExtension(scope, EXTENSIONS@[k]@),
                    true,
                ) && events[6 + 2 * k] == CliEvent::Call(
                    CliCall::<P>::RegisterPreviewExtension(scope, EXTENSIONS@[k]@),
                    true,
                )
        },
        events[31] == CliEvent::<P>::Notified,
{
    let (scope, path) = choose|scope: Scope, path: P|
        events == (#[trigger] installed(scope, path, install_count())).push(CliEvent::Notified);
    assert(events == installed(scope, path, install_count()).push(CliEvent::Notified));
    assert forall|k: int| #![trigger EXTENSIONS@[k]] 0 <= k < 13 implies events[5 + 2 * k]
        == CliEvent::Call(CliCall::<P>::RegisterExtension(scope, EXTENSIONS@[k]@), true) && events[6
        + 2 * k] == CliEvent::Call(
        CliCall::<P>::RegisterPreviewExtension(scope, EXTENSIONS@[k]@),
        true,
    ) by {
        assert(install_call(scope, path, 3 + 2 * k) == CliCall::<P>::RegisterExtension(
            scope,
            EXTENSIONS@[k]@,
        ));
        assert(install_call(scope, path, 4 + 2 * k) == CliCall::<P>::RegisterPreviewExtension(
            scope,
            EXTENSIONS@[k]@,
        ));
    }
}

/// An installation that fails has done what a successful one does up to
/// the change that failed, which is its last event. The exit code tells
/// a missing module, a class or list entry, and a binding apart.
pub proof fn failed_install_stops_at_a_change<P>(events: Seq<CliEvent<P>>, code: i32)
    requires
        install_outcome(events, code),
        code != 0,
    ensures
        code == 2 || code == 3 || code == 4,
        code == 2 ==> events == seq![CliEvent::<P>::DllPath(None)],
        code == 3 ==> 3 <= events.len() <= 5,
        code == 4 ==> 6 <= events.len() <= 31,
        code != 2 ==> {
            &&& events[0] matches CliEvent::DllPath(Some(_))
            &&& events[1] is Scope
            &&& events.last() matches CliEvent::Call(_, false)
            &&& forall|i: int|
                2 <= i < events.len() - 1 ==> ((#[trigger] events[i]) matches CliEvent::Call(
                    _,
                    true,
                ))
        },
        events[0] matches CliEvent::DllPath(Some(path)) ==> events[1] matches CliEvent::Scope(scope)
            ==> {
            &&& events[2] matches CliEvent::Call(call, _) && call == CliCall::RegisterClsid(
                scope,
                path,
            )
            &&& events.len() > 3 ==> (events[3] matches CliEvent::Call(call, _) && call
                == CliCall::RegisterPreviewClsid(scope, path))
            &&& events.len() > 4 ==> (events[4] matches CliEvent::Call(call, _) && call
                == CliCall::<P>::RegisterPreviewHandlerListEntry(scope))
            &&& forall|k: int|
                #![trigger EXTENSIONS@[k]]
                0 <= k < 13 ==> {
                    &&& events.len() > 5 + 2 * k ==> (events[5 + 2 * k] matches CliEvent::Call(
                        call,
                        _,
                    ) && call == CliCall::<P>::RegisterExtension(scope, EXTENSIONS@[k]@))
                    &&& events.len() > 6 + 2 * k ==> (events[6 + 2 * k] matches CliEvent::Call(
                        call,
                        _,
                    ) && call == CliCall::<P>::RegisterPreviewExtension(scope, EXTENSIONS@[k]@))
                }
        },
{
    if events != seq![CliEvent::<P>::DllPath(None)] {
        let (scope, path, n) = choose|scope: Scope, path: P, n: int|
            {
                &&& 0 <= n < install_count()
                &&& events == (#[trigger] installed(scope, path, n)).push(
                    CliEvent::Call(install_call(scope, path, n), false),
                )
                &&& code == failure_code(n)
            };
        assert(events == installed(scope, path, n).push(
            CliEvent::Call(install_call(scope, path, n), false),
        ));
        assert(events.len() == n + 3);
        assert forall|i: int| 2 <= i < events.len() implies ((#[trigger] events[i])
            matches CliEvent::Call(call, _) && call == install_call(scope, path, i - 2)) by {}
        assert forall|k: int| #![trigger EXTENSIONS@[k]] 0 <= k < 13 implies {
            &&& events.len() > 5 + 2 * k ==> (events[5 + 2 * k] matches CliEvent::Call(call, _)
                && call == CliCall::<P>::RegisterExtension(scope, EXTENSIONS@[k]@))
            &&& events.len() > 6 + 2 * k ==> (events[6 + 2 * k] matches CliEvent::Call(call, _)
                && call == CliCall::<P>::RegisterPreviewExtension(scope, EXTENSIONS@[k]@))
        } by {
            assert(install_call(scope, path, 3 + 2 * k) == CliCall::<P>::RegisterExtension(
                scope,
                EXTENSIONS@[k]@,
            ));
            assert(install_call(scope, path, 4 + 2 * k) == CliCall::<P>::RegisterPreviewExtension(
                scope,
                EXTENSIONS@[k]@,
            ));
        }
    }
}

/// A removal unbinds the thumbnails and the previews of every extension
/// and takes out the list entry and both classes, first for everybody,
/// then for the user, whatever fails. Then the file manager is told.
pub proof fn removal_covers_both_places<P>(events: Seq<CliEvent<P>>, second: bool)
    requires
        uninstall_outcome(events),
    ensures
        events.len() == 59,
        events[58] == CliEvent::<P>::Notified,
        ({
            let from = if second {
                29int
            } else {
                0int
            };
            let scope = if second {
                Scope::PerUser
            } else {
                Scope::PerMachine
            };
            &&& forall|k: int|
                #![trigger EXTENSIONS@[k]]
                0 <= k < 13 ==> {
                    &&& events[from + 2 * k] matches CliEvent::Call(call, _) && call == CliCall::<
                        P,
                    >::UnregisterExtension(scope, EXTENSIONS@[k]@)
                    &&& events[from + 2 * k + 1] matches CliEvent::Call(call, _) && call
                        == CliCall::<P>::UnregisterPreviewExtension(scope, EXTENSIONS@[k]@)
                }
            &&& events[from + 26] matches CliEvent::Call(call, _) && call == CliCall::<
                P,
            >::UnregisterPreviewHandlerListEntry(scope)
            &&& events[from + 27] matches CliEvent::Call(call, _) && call == CliCall::<
                P,
            >::UnregisterClsid(scope)
            &&& events[from + 28] matches CliEvent::Call(call, _) && call == CliCall::<
                P,
            >::UnregisterPreviewClsid(scope)
        }),
{
    let from = if second {
        29int
    } else {
        0int
    };
    let scope = if second {
        Scope::PerUser
    } else {
        Scope::PerMachine
    };
    assert(cleaned(events, from, scope, 29));
    assert forall|k: int| #![trigger EXTENSIONS@[k]] 0 <= k < 13 implies {
        &&& events[from + 2 * k] matches CliEvent::Call(call, _) && call == CliCall::<
            P,
        >::UnregisterExtension(scope, EXTENSIONS@[k]@)
        &&& events[from + 2 * k + 1] matches CliEvent::Call(call, _) && call == CliCall::<
            P,
        >::UnregisterPreviewExtension(scope, EXTENSIONS@[k]@)
    } by {
        let (even, odd) = (2 * k, 2 * k + 1);
        assert(events[from + even] matches CliEvent::Call(call, _) && call == cleaning_call::<P>(
            scope,
            even,
        ));
        assert(events[from + odd] matches CliEvent::Call(call, _) && call == cleaning_call::<P>(
            scope,
            odd,
        ));
    }
    assert(events[from + 26] matches CliEvent::Call(call, _) && call == cleaning_call::<P>(
        scope,
        26,
    ));
    assert(events[from + 27] matches CliEvent::Call(call, _) && call == cleaning_call::<P>(
        scope,
        27,
    ));
    assert(events[from + 28] matches CliEvent::Call(call, _) && call == cleaning_call::<P>(
        scope,
        28,
    ));
}

/// The extensions that are bound, in the order in which they are.
pub proof fn bound_extensions()
    ensures
        EXTENSIONS@ =~= seq![
            ".zip",
            ".cbz",
            ".rar",
            ".cbr",
            ".7z",
            ".cb7",
            ".cbt",
            ".livp",
            ".epub",
            ".fb2",
            ".mobi",
            ".azw",
            ".azw3",
        ],
{
}

} // verus!
