//! Per-render state: live root scopes for conformance checks, the render-tag
//! depth, output accounting, interrupts and the active render policy.

use crate::error::{Error, ErrorModel};
use crate::kstring::KString;
use crate::policy::{
    depth_after_enter, depth_after_leave, prod_assign_resource_cost, prod_cost, InterruptRegister, ProdPolicy, ProdPolicyConfig,
    RenderedBytesRegister,
};
use crate::value::{lookup, Object, Value, ValueModel};
use vstd::prelude::*;

verus! {

/// Entries of one live root scope, as views.
pub type ScopeModel = Seq<(Seq<char>, ValueModel)>;

/// Owned snapshot of a live root scope: name to value.
#[derive(Debug)]
pub struct LiveScopeSnapshot {
    entries: Object,
}

impl LiveScopeSnapshot {
    /// The bindings, in insertion order.
    pub closed spec fn model(&self) -> ScopeModel {
        self.entries.model()
    }

    /// Names are distinct.
    pub closed spec fn wf(&self) -> bool {
        self.entries.wf()
    }

    /// An empty snapshot.
    pub fn new() -> (r: Self)
        ensures
            r.model() == Seq::<(Seq<char>, ValueModel)>::empty(),
            r.wf(),
    {
        LiveScopeSnapshot { entries: Object::new() }
    }

    /// Binds `name` to a copy of `value`, replacing an earlier binding of it.
    pub fn insert(&mut self, name: KString, value: &Value)
        ensures
            lookup(final(self).model(), name@) == Some(value@),
            forall|k: Seq<char>| k != name@ ==> lookup(final(self).model(), k) == lookup(
                old(self).model(),
                k,
            ),
            old(self).wf() ==> final(self).wf(),
    {
        let copy = value.deep_clone();
        let ghost k0 = name@;
        self.entries.insert(name, copy);
        assert forall|k: Seq<char>| k != k0 implies lookup(self.model(), k) == lookup(
            old(self).model(),
            k,
        ) by {
            assert(self.entries.spec_get(k) == old(self).entries.spec_get(k));
        }
    }

    /// The value bound to `name`.
    pub fn get(&self, name: &str) -> (r: Option<&Value>)
        ensures
            match r {
                Some(v) => lookup(self.model(), name@) == Some(v@),
                None => lookup(self.model(), name@) is None,
            },
    {
        self.entries.get(name)
    }
}

/// Owned value found in a live scope.
#[derive(Debug)]
pub struct LiveScopeValue {
    value: Value,
}

impl View for LiveScopeValue {
    type V = ValueModel;

    closed spec fn view(&self) -> ValueModel {
        self.value@
    }
}

impl LiveScopeValue {
    /// Wraps `value`.
    pub fn new(value: Value) -> (r: Self)
        ensures
            r@ == value@,
    {
        LiveScopeValue { value }
    }

    /// The wrapped value.
    pub fn value(&self) -> (r: &Value)
        ensures
            r@ == self@,
    {
        &self.value
    }

    /// Unwraps the value.
    pub fn into_value(self) -> (r: Value)
        ensures
            r@ == self@,
    {
        self.value
    }
}

/// The value of `k` in the innermost scope that binds it.
pub open spec fn find_in_scopes(scopes: Seq<ScopeModel>, k: Seq<char>) -> Option<ValueModel>
    decreases scopes.len(),
{
    if scopes.len() == 0 {
        None
    } else {
        match lookup(scopes.last(), k) {
            Some(v) => Some(v),
            None => find_in_scopes(scopes.drop_last(), k),
        }
    }
}

/// Render-local stack of live root scopes.
#[derive(Debug)]
pub struct LiveScopeSession {
    active: bool,
    scopes: Vec<LiveScopeSnapshot>,
}

impl LiveScopeSession {
    /// Whether the session still belongs to an active render tree.
    pub closed spec fn spec_active(&self) -> bool {
        self.active
    }

    /// The pushed scopes, outermost first.
    pub closed spec fn spec_scopes(&self) -> Seq<ScopeModel> {
        self.scopes@.map_values(|s: LiveScopeSnapshot| s.model())
    }

    /// An active session with no scopes.
    pub fn new() -> (r: Self)
        ensures
            r.spec_active(),
            r.spec_scopes() == Seq::<ScopeModel>::empty(),
    {
        let r = LiveScopeSession { active: true, scopes: Vec::new() };
        assert(r.spec_scopes() =~= Seq::<ScopeModel>::empty());
        r
    }

    /// Whether the session still belongs to an active render tree.
    pub fn is_active(&self) -> (r: bool)
        ensures
            r == self.spec_active(),
    {
        self.active
    }

    /// Marks the session inert once its render tree completes.
    pub fn deactivate(&mut self)
        ensures
            !final(self).spec_active(),
            final(self).spec_scopes() == old(self).spec_scopes(),
    {
        self.active = false;
    }

    /// Pushes a live root scope; the returned guard pops it again.
    pub fn push_root_scope(&mut self, scope: LiveScopeSnapshot) -> (r: LiveScopeSessionGuard)
        ensures
            final(self).spec_scopes() == old(self).spec_scopes().push(scope.model()),
            final(self).spec_active() == old(self).spec_active(),
    {
        let ghost m = scope.model();
        self.scopes.push(scope);
        assert(self.spec_scopes() =~= old(self).spec_scopes().push(m));
        LiveScopeSessionGuard { released: false }
    }

    /// Pops the most recent scope, if any.
    pub fn pop_root_scope(&mut self)
        ensures
            final(self).spec_scopes() == if old(self).spec_scopes().len() > 0 {
                old(self).spec_scopes().drop_last()
            } else {
                old(self).spec_scopes()
            },
            final(self).spec_active() == old(self).spec_active(),
    {
        if self.scopes.len() > 0 {
            self.scopes.pop();
            assert(self.spec_scopes() =~= old(self).spec_scopes().drop_last());
        }
    }

    /// Looks a name up in the scopes, innermost first; nothing is found once
    /// the session is inactive.
    pub fn find_root(&self, name: &str) -> (r: Option<LiveScopeValue>)
        ensures
            match r {
                Some(v) => self.spec_active() && find_in_scopes(self.spec_scopes(), name@) == Some(
                    v@,
                ),
                None => !self.spec_active() || find_in_scopes(self.spec_scopes(), name@) is None,
            },
    {
        if !self.active {
            return None;
        }
        let ghost all = self.spec_scopes();
        let mut i: usize = self.scopes.len();
        assert(all.take(i as int) =~= all);
        while i > 0
            invariant
                i <= self.scopes@.len(),
                self.spec_active(),
                all == self.spec_scopes(),
                all.len() == self.scopes@.len(),
                find_in_scopes(all, name@) == find_in_scopes(all.take(i as int), name@),
            decreases i,
        {
            let scope = &self.scopes[i - 1];
            let ghost t = all.take(i as int);
            assert(all[i - 1] == self.scopes@[i - 1].model());
            assert(t.last() == scope.model());
            assert(t.drop_last() =~= all.take(i - 1));
            match scope.get(name) {
                Some(v) => {
                    let copy = v.deep_clone();
                    assert(find_in_scopes(t, name@) == Some(copy@));
                    return Some(LiveScopeValue::new(copy));
                },
                None => {},
            }
            i = i - 1;
        }
        assert(all.take(0).len() == 0);
        None
    }

    /// Number of pushed scopes, or 0 once the session is inactive.
    pub fn depth(&self) -> (r: usize)
        ensures
            r == if self.spec_active() {
                self.spec_scopes().len()
            } else {
                0
            },
    {
        if !self.active {
            0
        } else {
            self.scopes.len()
        }
    }
}

/// Marks a pushed live scope; releasing it pops the most recent scope.
#[derive(Debug)]
pub struct LiveScopeSessionGuard {
    released: bool,
}

impl LiveScopeSessionGuard {
    /// Pops the most recent scope of `session`.
    pub fn release(self, session: &mut LiveScopeSession)
        ensures
            final(session).spec_scopes() == if old(session).spec_scopes().len() > 0 {
                old(session).spec_scopes().drop_last()
            } else {
                old(session).spec_scopes()
            },
            final(session).spec_active() == old(session).spec_active(),
    {
        session.pop_root_scope();
    }
}

/// A live scope's bindings, gathered before the scope is pushed.
#[derive(Debug)]
pub struct LiveScopeFrame {
    snapshot: LiveScopeSnapshot,
}

impl LiveScopeFrame {
    /// The bindings gathered so far.
    pub closed spec fn model(&self) -> ScopeModel {
        self.snapshot.model()
    }

    /// An empty frame.
    pub fn new() -> (r: Self)
        ensures
            r.model() == Seq::<(Seq<char>, ValueModel)>::empty(),
    {
        LiveScopeFrame { snapshot: LiveScopeSnapshot::new() }
    }

    /// Records a binding.
    pub fn insert(&mut self, name: KString, value: &Value)
        ensures
            lookup(final(self).model(), name@) == Some(value@),
            forall|k: Seq<char>| k != name@ ==> lookup(final(self).model(), k) == lookup(
                old(self).model(),
                k,
            ),
    {
        self.snapshot.insert(name, value);
    }
}

/// Guard of a frame pushed by [`push_live_scope_frame`].
#[derive(Debug)]
pub struct LiveScopeFrameGuard {
    inner: Option<LiveScopeSessionGuard>,
}

impl LiveScopeFrameGuard {
    /// Whether a scope was pushed.
    pub closed spec fn pushed(&self) -> bool {
        self.inner is Some
    }

    /// Pops the frame's scope from the session it was pushed to.
    pub fn release(self, registers: &mut Registers)
        ensures
            final(registers).render_tag_depth == old(registers).render_tag_depth,
            final(registers).live_scope_session matches Some(s) ==> old(
                registers,
            ).live_scope_session matches Some(o) && s.spec_active() == o.spec_active() && (
            self.pushed() && o.spec_scopes().len() > 0 ==> s.spec_scopes()
                == o.spec_scopes().drop_last()) && (!self.pushed() ==> s.spec_scopes()
                == o.spec_scopes()),
            final(registers).live_scope_session is Some == old(registers).live_scope_session is Some,
    {
        match self.inner {
            Some(guard) => match &mut registers.live_scope_session {
                Some(session) => guard.release(session),
                None => {},
            },
            None => {},
        }
    }
}

/// Per-render registers.
#[derive(Debug)]
pub struct Registers {
    /// Depth of `{% render %}` partial boundaries.
    pub render_tag_depth: usize,
    /// Bytes written to the rendered output.
    pub rendered_bytes: RenderedBytesRegister,
    /// Pending `break` / `continue`.
    pub interrupt: InterruptRegister,
    /// The active render policy, if one is installed.
    pub policy: Option<ProdPolicy>,
    /// The live-scope session of a conformance render, if any.
    pub live_scope_session: Option<LiveScopeSession>,
}

/// Pushes `frame` onto the live-scope session of `registers`, if there is
/// one; releasing the guard pops it.
pub fn push_live_scope_frame(registers: &mut Registers, frame: LiveScopeFrame) -> (r:
    LiveScopeFrameGuard)
    ensures
        r.pushed() == old(registers).live_scope_session is Some,
        final(registers).render_tag_depth == old(registers).render_tag_depth,
        final(registers).live_scope_session is Some == old(registers).live_scope_session is Some,
        final(registers).live_scope_session matches Some(s) ==> old(
            registers,
        ).live_scope_session matches Some(o) && s.spec_active() == o.spec_active()
            && s.spec_scopes() == o.spec_scopes().push(frame.model()),
{
    match &mut registers.live_scope_session {
        Some(session) => LiveScopeFrameGuard { inner: Some(session.push_root_scope(frame.snapshot)) },
        None => LiveScopeFrameGuard { inner: None },
    }
}

/// Guard of a `{% render %}` boundary.
#[derive(Debug)]
pub struct RenderTagScopeGuard {
    released: bool,
}

impl RenderTagScopeGuard {
    /// Leaves the boundary.
    pub fn release(self, registers: &mut Registers)
        ensures
            final(registers).render_tag_depth == depth_after_leave(
                old(registers).render_tag_depth as nat,
            ),
    {
        registers.render_tag_depth = registers.render_tag_depth.saturating_sub(1);
    }
}

impl Registers {
    /// Fresh registers: no policy, no session, nothing counted.
    pub fn new() -> (r: Self)
        ensures
            r.render_tag_depth == 0,
            r.rendered_bytes.spec_bytes() == 0,
            r.rendered_bytes.spec_baseline() == 0,
            r.interrupt.spec_interrupt() is None,
            r.policy is None,
            r.live_scope_session is None,
    {
        Registers {
            render_tag_depth: 0,
            rendered_bytes: RenderedBytesRegister::new(),
            interrupt: InterruptRegister::new(),
            policy: None,
            live_scope_session: None,
        }
    }

    /// Whether the render is inside a `{% render %}` partial boundary.
    pub fn in_render_tag_scope(&self) -> (r: bool)
        ensures
            r == (self.render_tag_depth > 0),
    {
        self.render_tag_depth > 0
    }

    /// Enters a `{% render %}` partial boundary until the guard is released.
    pub fn enter_render_tag_scope(&mut self) -> (r: RenderTagScopeGuard)
        requires
            old(self).render_tag_depth < usize::MAX,
        ensures
            final(self).render_tag_depth == depth_after_enter(old(self).render_tag_depth as nat),
    {
        self.render_tag_depth = self.render_tag_depth + 1;
        RenderTagScopeGuard { released: false }
    }

    /// The active live-scope session, if any.
    pub fn live_scope_session(&self) -> (r: &Option<LiveScopeSession>)
        ensures
            r == &self.live_scope_session,
    {
        &self.live_scope_session
    }

    /// Replaces the active live-scope session.
    pub fn set_live_scope_session(&mut self, session: Option<LiveScopeSession>)
        ensures
            final(self).live_scope_session == session,
            final(self).render_tag_depth == old(self).render_tag_depth,
    {
        self.live_scope_session = session;
    }
}

/// Installs a fresh production policy with `config`.
pub fn install_prod_policy(registers: &mut Registers, config: ProdPolicyConfig)
    ensures
        final(registers).policy matches Some(p) && p.config() == config && p.spec_render_ops() == 0
            && p.spec_assign_bytes() == 0 && p.spec_depth() == 0 && p.spec_errors() == Seq::<
            ErrorModel,
        >::empty(),
        final(registers).render_tag_depth == old(registers).render_tag_depth,
{
    registers.policy = Some(ProdPolicy::new(config));
}

/// Whether missing variables raise: the policy's setting, or `true` when no
/// policy is installed.
pub fn strict_variables_enabled(registers: &Registers) -> (r: bool)
    ensures
        r == match registers.policy {
            Some(p) => p.config().strict_variables,
            None => true,
        },
{
    match &registers.policy {
        Some(p) => p.strict_variables(),
        None => true,
    }
}

/// Handles a render error through the active policy; without one the error
/// is returned.
pub fn handle_render_error(registers: &mut Registers, error: Error) -> (r: Result<
    Option<String>,
    Error,
>)
    ensures
        old(registers).policy is None ==> (r matches Err(e) && e@ == error@),
        final(registers).policy is Some == old(registers).policy is Some,
        final(registers).policy matches Some(p) ==> old(registers).policy matches Some(o) && match o.config().error_mode {
            crate::policy::ProdErrorMode::Strict => r matches Err(e) && e@ == error@
                && p.spec_errors() == o.spec_errors(),
            crate::policy::ProdErrorMode::Lenient => r matches Ok(Some(s)) && s@
                == crate::error::error_text(error@) && p.spec_errors() == o.spec_errors().push(
                error@,
            ),
        },
{
    match &mut registers.policy {
        Some(p) => p.handle_render_error(error),
        None => Err(error),
    }
}

/// Counts render ops in the active policy; without one nothing is counted.
pub fn increment_render_ops(registers: &mut Registers, amount: usize) -> (r: Result<(), Error>)
    requires
        old(registers).policy matches Some(p) ==> p.spec_render_ops() + amount <= usize::MAX,
    ensures
        old(registers).policy is None ==> r is Ok && final(registers).policy is None,
        final(registers).policy matches Some(p) ==> old(registers).policy matches Some(o)
            && p.spec_render_ops() == o.spec_render_ops() + amount && p.config() == o.config() && (
        r is Ok <==> (o.config().max_render_ops is None || p.spec_render_ops()
            <= o.config().max_render_ops->0)),
        final(registers).policy is Some == old(registers).policy is Some,
{
    match &mut registers.policy {
        Some(p) => p.increment_render_ops(amount),
        None => Ok(()),
    }
}

/// Counts assign bytes in the active policy; without one nothing is counted.
pub fn increment_assign_bytes(registers: &mut Registers, amount: usize) -> (r: Result<(), Error>)
    requires
        old(registers).policy matches Some(p) ==> p.spec_assign_bytes() + amount <= usize::MAX,
    ensures
        final(registers).render_tag_depth == old(registers).render_tag_depth,
        old(registers).policy is None ==> r is Ok && final(registers).policy is None,
        final(registers).policy matches Some(p) ==> old(registers).policy matches Some(o)
            && p.spec_assign_bytes() == o.spec_assign_bytes() + amount && p.config() == o.config()
            && (r is Ok <==> (o.config().max_assign_bytes is None || p.spec_assign_bytes()
            <= o.config().max_assign_bytes->0)),
        final(registers).policy is Some == old(registers).policy is Some,
{
    match &mut registers.policy {
        Some(p) => p.increment_assign_bytes(amount),
        None => Ok(()),
    }
}

/// The assign cost of `value` under the active policy (the production cost
/// either way).
pub fn assign_resource_cost(registers: &Registers, value: &Value) -> (r: usize)
    requires
        prod_cost(value@) <= usize::MAX,
    ensures
        r == prod_cost(value@),
{
    match &registers.policy {
        Some(p) => p.assign_resource_cost(value),
        None => prod_assign_resource_cost(value),
    }
}

/// Checks resource limits; the production policy has none beyond its counters.
pub fn check_resource_limits(registers: &Registers) -> (r: Result<(), Error>)
    ensures
        r is Ok,
{
    Ok(())
}

/// Resets per-scope resource limits; the production policy keeps none.
pub fn reset_resource_limits(registers: &mut Registers) -> (r: Result<(), Error>)
    ensures
        r is Ok,
        final(registers).policy == old(registers).policy,
        final(registers).render_tag_depth == old(registers).render_tag_depth,
{
    Ok(())
}

/// Guard of a render scope entered through the active policy.
#[derive(Debug)]
pub struct RenderScopeGuard {
    entered: bool,
}

impl RenderScopeGuard {
    /// Whether the policy's depth was raised.
    pub closed spec fn entered(&self) -> bool {
        self.entered
    }

    /// Leaves the scope: the policy's depth goes down again.
    pub fn release(self, registers: &mut Registers)
        ensures
            final(registers).policy is Some == old(registers).policy is Some,
            final(registers).policy matches Some(p) ==> old(registers).policy matches Some(o)
                && p.config() == o.config() && p.spec_depth() == if self.entered() {
                depth_after_leave(o.spec_depth())
            } else {
                o.spec_depth()
            },
    {
        if self.entered {
            match &mut registers.policy {
                Some(p) => p.leave_scope(),
                None => {},
            }
        }
    }
}

/// Enters a nested render/include boundary through the active policy.
pub fn enter_render_scope(registers: &mut Registers) -> (r: Result<RenderScopeGuard, Error>)
    requires
        old(registers).policy matches Some(p) ==> p.spec_depth() < usize::MAX,
    ensures
        final(registers).policy is Some == old(registers).policy is Some,
        old(registers).policy is None ==> (r matches Ok(g) && !g.entered()),
        final(registers).policy matches Some(p) ==> old(registers).policy matches Some(o)
            && p.config() == o.config() && match r {
            Ok(g) => g.entered() && p.spec_depth() == depth_after_enter(o.spec_depth()) && (
            o.config().max_depth is None || o.spec_depth() + 1 <= o.config().max_depth->0),
            Err(_) => p.spec_depth() == o.spec_depth() && o.config().max_depth is Some
                && o.spec_depth() + 1 > o.config().max_depth->0,
        },
{
    match &mut registers.policy {
        Some(p) => {
            p.enter_scope()?;
            Ok(RenderScopeGuard { entered: true })
        },
        None => Ok(RenderScopeGuard { entered: false }),
    }
}

/// Drains the errors collected by the active policy.
pub fn take_render_errors(registers: &mut Registers) -> (r: Vec<Error>)
    ensures
        old(registers).policy is None ==> r@.len() == 0,
        final(registers).policy is Some == old(registers).policy is Some,
        final(registers).policy matches Some(p) ==> old(registers).policy matches Some(o)
            && r@.map_values(|e: Error| e@) == o.spec_errors() && p.spec_errors() == Seq::<
            ErrorModel,
        >::empty(),
{
    match &mut registers.policy {
        Some(p) => p.take_errors(),
        None => Vec::new(),
    }
}

/// A lookup in a session sees the innermost scope that binds the name: a
/// binding of the most recently pushed scope hides every outer one, and a
/// name it does not bind is looked up in the scopes below it.
pub proof fn law_innermost_scope_wins(scopes: Seq<ScopeModel>, inner: ScopeModel, k: Seq<char>)
    ensures
        lookup(inner, k) is Some ==> find_in_scopes(scopes.push(inner), k) == lookup(inner, k),
        lookup(inner, k) is None ==> find_in_scopes(scopes.push(inner), k) == find_in_scopes(
            scopes,
            k,
        ),
{
    assert(scopes.push(inner).drop_last() =~= scopes);
}

/// Releasing the guard of a pushed scope restores the session's scopes, and
/// with them every lookup.
pub proof fn law_release_undoes_push(scopes: Seq<ScopeModel>, pushed: ScopeModel)
    ensures
        scopes.push(pushed).len() > 0,
        scopes.push(pushed).drop_last() == scopes,
        forall|k: Seq<char>| #[trigger] find_in_scopes(scopes.push(pushed).drop_last(), k)
            == find_in_scopes(scopes, k),
{
    assert(scopes.push(pushed).drop_last() =~= scopes);
}

/// What an `{% assign %}` evaluated: the bounds of a literal range, or a
/// value together with the bounds of the range binding it copies (when it
/// copies one) and whether the runtime already bound the name as an alias of
/// its source.
pub enum AssignedSource {
    Range(i64, i64),
    Evaluated { value: Value, copied: Option<(i64, i64)>, aliased: bool },
}

/// What an `{% assign %}` binds its name to.
pub enum AssignBinding {
    /// A lazy range binding.
    Range(i64, i64),
    /// The value.
    Value(Value),
    /// Nothing more: the alias the runtime made stands.
    Unchanged,
}

/// The assign bytes an `{% assign %}` is charged: one for a range, a copied
/// range or an alias, else the production cost of the value.
pub open spec fn assign_charge(source: AssignedSource) -> int {
    match source {
        AssignedSource::Range(_, _) => 1,
        AssignedSource::Evaluated { value, copied, aliased } => if copied is Some || aliased {
            1
        } else {
            prod_cost(value@) as int
        },
    }
}

/// Whether `b` is what `source` binds the name to.
pub open spec fn binds_to(b: AssignBinding, source: AssignedSource) -> bool {
    match source {
        AssignedSource::Range(start, stop) => b == AssignBinding::Range(start, stop),
        AssignedSource::Evaluated { value, copied, aliased } => match copied {
            Some((start, stop)) => b == AssignBinding::Range(start, stop),
            None => if aliased {
                b is Unchanged
            } else {
                b matches AssignBinding::Value(v) && v@ == value@
            },
        },
    }
}

/// Charges an `{% assign %}` to the active policy and says what the name is
/// bound to; the binding is made only when the charge is within the limit.
pub fn commit_assign(registers: &mut Registers, source: AssignedSource) -> (r: Result<
    AssignBinding,
    Error,
>)
    requires
        source matches AssignedSource::Evaluated { value, copied: None, aliased: false }
            ==> prod_cost(value@) <= usize::MAX,
        old(registers).policy matches Some(p) ==> p.spec_assign_bytes() + assign_charge(source)
            <= usize::MAX,
    ensures
        final(registers).render_tag_depth == old(registers).render_tag_depth,
        final(registers).policy is Some == old(registers).policy is Some,
        old(registers).policy is None ==> r is Ok,
        final(registers).policy matches Some(p) ==> old(registers).policy matches Some(o)
            && p.spec_assign_bytes() == o.spec_assign_bytes() + assign_charge(source)
            && p.config() == o.config() && (r is Ok <==> (o.config().max_assign_bytes is None
            || p.spec_assign_bytes() <= o.config().max_assign_bytes->0)),
        r matches Ok(b) ==> binds_to(b, source),
{
    let (charge, binding) = match source {
        AssignedSource::Range(start, stop) => (1usize, AssignBinding::Range(start, stop)),
        AssignedSource::Evaluated { value, copied, aliased } => match copied {
            Some((start, stop)) => (1usize, AssignBinding::Range(start, stop)),
            None => if aliased {
                (1usize, AssignBinding::Unchanged)
            } else {
                let cost = assign_resource_cost(registers, &value);
                (cost, AssignBinding::Value(value))
            },
        },
    };
    match increment_assign_bytes(registers, charge) {
        Ok(()) => Ok(binding),
        Err(e) => Err(e),
    }
}

} // verus!
