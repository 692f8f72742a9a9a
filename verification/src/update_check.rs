//! Looking for a newer version: quietly at start, or because the user
//! asked.
//!
//! `I` is what is known of a newer version.

use vstd::prelude::*;

use crate::text::join;

verus! {

/// The next step of the quiet check.
pub enum BackgroundStep<I> {
    /// Ask for the latest version.
    Fetch,
    /// See whether the user skips this version.
    CheckSkipped(I),
    /// Show the newer version.
    Show(I),
    /// Do nothing.
    Stop,
}

/// Begins the quiet check, if it is due.
pub fn begin_background_check<I>(due: bool) -> (step: BackgroundStep<I>)
    ensures
        step == if due {
            BackgroundStep::<I>::Fetch
        } else {
            BackgroundStep::Stop
        },
{
    if due {
        BackgroundStep::Fetch
    } else {
        BackgroundStep::Stop
    }
}

/// Goes on with what was found: a newer version, or none.
pub fn after_background_fetch<I>(found: Option<I>) -> (step: BackgroundStep<I>)
    ensures
        step == (match found {
            Some(info) => BackgroundStep::CheckSkipped(info),
            None => BackgroundStep::Stop,
        }),
{
    match found {
        Some(info) => BackgroundStep::CheckSkipped(info),
        None => BackgroundStep::Stop,
    }
}

/// Shows a newer version, unless the user skips it.
pub fn after_skip_check<I>(info: I, skipped: bool) -> (step: BackgroundStep<I>)
    ensures
        step == if skipped {
            BackgroundStep::<I>::Stop
        } else {
            BackgroundStep::Show(info)
        },
{
    if skipped {
        BackgroundStep::Stop
    } else {
        BackgroundStep::Show(info)
    }
}

/// The outcome of a check that the user asked for.
pub enum ManualCheck<I> {
    Available(I),
    UpToDate,
    Failed,
}

/// What the user is told.
pub enum ManualReport<I> {
    /// The newer version is shown.
    Update(I),
    /// A message box with this text.
    Info(String),
    /// An error box with this text.
    Error(String),
}

/// Does `{}` stand at this place of a text?
pub open spec fn placeholder_at(text: Seq<char>, at: int) -> bool {
    0 <= at && at + 2 <= text.len() && text[at] == '{' && text[at + 1] == '}'
}

/// Is this where `{}` stands for the first time?
pub open spec fn first_placeholder(text: Seq<char>, at: int) -> bool {
    placeholder_at(text, at) && forall|k: int| 0 <= k < at ==> !#[trigger] placeholder_at(text, k)
}

/// Is `filled` the template with its first `{}` replaced by `value`? A
/// template without one stays as it is.
pub open spec fn fills(template: Seq<char>, value: Seq<char>, filled: Seq<char>) -> bool {
    if exists|at: int| first_placeholder(template, at) {
        exists|at: int| #[trigger]
            first_placeholder(template, at) && filled == template.take(at) + value + template.skip(
                at + 2,
            )
    } else {
        filled == template
    }
}

/// Replaces the first `{}` of a template.
pub fn fill_placeholder(template: &str, value: &str) -> (filled: String)
    ensures
        fills(template@, value@, filled@),
{
    let len: usize = template.unicode_len();
    let mut at: usize = 0;
    while at < len && len - at >= 2
        invariant
            at <= len,
            len == template@.len(),
            forall|k: int| 0 <= k < at ==> !#[trigger] placeholder_at(template@, k),
        decreases len - at,
    {
        if template.get_char(at) == '{' && template.get_char(at + 1) == '}' {
            proof {
                assert(first_placeholder(template@, at as int));
                assert(template@.subrange(0, at as int) =~= template@.take(at as int));
                assert(template@.subrange(at + 2, len as int) =~= template@.skip(at + 2));
            }
            let mut filled = join(template.substring_char(0, at), value);
            filled.append(template.substring_char(at + 2, len));
            return filled;
        }
        at += 1;
    }
    proof {
        assert forall|k: int| !first_placeholder(template@, k) by {
            if first_placeholder(template@, k) {
                assert(k < at);
            }
        }
    }
    template.to_owned()
}

/// Keeps checks that the user asks for from overlapping.
#[derive(Debug, Clone, Copy, PartialEq, Eq, Structural)]
pub struct ManualGuard {
    pub running: bool,
}

impl ManualGuard {
    pub fn new() -> (guard: ManualGuard)
        ensures
            !guard.running,
    {
        ManualGuard { running: false }
    }

    /// Tells whether a check is to be started; not while one is running.
    pub fn begin(&mut self) -> (start: bool)
        ensures
            start == !old(self).running,
            final(self).running,
    {
        if self.running {
            return false;
        }
        self.running = true;
        true
    }

    /// Takes the outcome of the check and tells what to show. Every
    /// outcome is reported, since the user asked.
    pub fn finish<I>(
        &mut self,
        outcome: ManualCheck<I>,
        up_to_date: &str,
        version: &str,
        failed: &str,
    ) -> (report: ManualReport<I>)
        ensures
            !final(self).running,
            match outcome {
                ManualCheck::Available(info) => report == ManualReport::Update(info),
                ManualCheck::UpToDate => report matches ManualReport::Info(text) && fills(
                    up_to_date@,
                    version@,
                    text@,
                ),
                ManualCheck::Failed => report matches ManualReport::Error(text) && text@
                    == failed@,
            },
    {
        self.running = false;
        match outcome {
            ManualCheck::Available(info) => ManualReport::Update(info),
            ManualCheck::UpToDate => ManualReport::Info(fill_placeholder(up_to_date, version)),
            ManualCheck::Failed => ManualReport::Error(failed.to_owned()),
        }
    }
}

/// There is at most one way to fill a template.
pub proof fn filling_is_determined(
    template: Seq<char>,
    value: Seq<char>,
    a: Seq<char>,
    b: Seq<char>,
)
    requires
        fills(template, value, a),
        fills(template, value, b),
    ensures
        a == b,
{
    if exists|at: int| first_placeholder(template, at) {
        let i = choose|at: int| #[trigger]
            first_placeholder(template, at) && a == template.take(at) + value + template.skip(
                at + 2,
            );
        let j = choose|at: int| #[trigger]
            first_placeholder(template, at) && b == template.take(at) + value + template.skip(
                at + 2,
            );
        if i < j {
            assert(!placeholder_at(template, i));
        } else if j < i {
            assert(!placeholder_at(template, j));
        }
    }
}

/// Filling replaces the first `{}` and leaves everything around it as it
/// is, whatever follows; a template without one stays.
pub proof fn filling_replaces_the_first_placeholder(
    before: Seq<char>,
    after: Seq<char>,
    value: Seq<char>,
    filled: Seq<char>,
)
    requires
        forall|k: int|
            0 <= k < before.len() - 1 ==> !(#[trigger] before[k] == '{' && before[k + 1] == '}'),
    ensures
        fills(before + seq!['{', '}'] + after, value, filled) <==> filled == before + value + after,
        fills(before, value, filled) <==> filled == before,
{
    let template = before + seq!['{', '}'] + after;
    let at = before.len() as int;
    assert(placeholder_at(template, at));
    assert forall|k: int| 0 <= k < at implies !#[trigger] placeholder_at(template, k) by {
        if k + 1 < at {
            assert(template[k] == before[k] && template[k + 1] == before[k + 1]);
        } else {
            assert(template[k + 1] == '{');
        }
    }
    assert(first_placeholder(template, at));
    assert(template.take(at) =~= before);
    assert(template.skip(at + 2) =~= after);
    if fills(template, value, filled) {
        let i = choose|i: int| #[trigger]
            first_placeholder(template, i) && filled == template.take(i) + value + template.skip(
                i + 2,
            );
        if i < at {
            assert(!placeholder_at(template, i));
        } else if at < i {
            assert(!placeholder_at(template, at));
        }
    }
    assert forall|k: int| !first_placeholder(before, k) by {
        if placeholder_at(before, k) {
            assert(before[k] == '{' && before[k + 1] == '}');
        }
    }
}

} // verus!
