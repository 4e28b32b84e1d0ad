//! The hotkey registry: the live set of OS-registered shortcuts across the
//! Session tier and the MassAction tier, with cross-tier conflict
//! resolution.
//!
//! Every operation is a pure state-machine step: it validates its inputs,
//! updates the registry state, and returns the exact, non-redundant list of
//! OS actions (register / unregister) the embedding must perform, together
//! with the notifications to emit.  The central invariant relates the two:
//! performing the returned actions on an OS that held exactly the old
//! state's live bindings leaves it holding exactly the new state's live
//! bindings — so at most one OS-level registration exists per distinct
//! binding, and the MassAction tier owns a contested binding whenever it is
//! active.

use vstd::prelude::*;
use vstd::string::*;

use crate::binding::{accel_binding, accel_parses, parse_accelerator, BindingModel, ShortcutBinding};
use crate::errors::{EngineError, HotkeySlot};
use crate::text::{trim_spec, trimmed};

verus! {

/// An OS-level instruction, to be carried out by the embedding in order.
#[derive(Debug)]
pub enum OsAction {
    Register(ShortcutBinding),
    Unregister(ShortcutBinding),
}

/// The mathematical value of an OS action.
pub enum ActionModel {
    Reg(BindingModel),
    Unreg(BindingModel),
}

/// A notification the embedding delivers to the UI, best-effort: a delivery
/// failure is never surfaced as a call failure.
#[derive(Debug)]
pub enum Notification {
    SessionStatus { enabled: bool },
    MassStatus { enabled: bool },
    SessionRegistered { enabled: bool, prev: String, next: String, replay: String },
}

/// What an action stands for.
pub open spec fn action_model(a: OsAction) -> ActionModel {
    match a {
        OsAction::Register(b) => ActionModel::Reg(b.model()),
        OsAction::Unregister(b) => ActionModel::Unreg(b.model()),
    }
}

/// The values of a whole action list.
pub open spec fn actions_model(acts: Seq<OsAction>) -> Seq<ActionModel> {
    acts.map_values(|a: OsAction| action_model(a))
}

/// The OS's registration set after carrying out a list of actions.
pub open spec fn apply_actions(os: Set<BindingModel>, acts: Seq<ActionModel>) -> Set<BindingModel>
    decreases acts.len(),
{
    if acts.len() == 0 {
        os
    } else {
        match acts[0] {
            ActionModel::Reg(b) => apply_actions(os.insert(b), acts.drop_first()),
            ActionModel::Unreg(b) => apply_actions(os.remove(b), acts.drop_first()),
        }
    }
}

/// No action is redundant: every unregister names a binding the OS holds at
/// that point, and every register names one it does not.
pub open spec fn actions_strict(os: Set<BindingModel>, acts: Seq<ActionModel>) -> bool
    decreases acts.len(),
{
    if acts.len() == 0 {
        true
    } else {
        match acts[0] {
            ActionModel::Reg(b) => !os.contains(b) && actions_strict(
                os.insert(b),
                acts.drop_first(),
            ),
            ActionModel::Unreg(b) => os.contains(b) && actions_strict(
                os.remove(b),
                acts.drop_first(),
            ),
        }
    }
}

/// The weaker validity used where a register is deliberately repeated: every
/// unregister still names a binding the OS holds at that point.
pub open spec fn unregisters_valid(os: Set<BindingModel>, acts: Seq<ActionModel>) -> bool
    decreases acts.len(),
{
    if acts.len() == 0 {
        true
    } else {
        match acts[0] {
            ActionModel::Reg(b) => unregisters_valid(os.insert(b), acts.drop_first()),
            ActionModel::Unreg(b) => os.contains(b) && unregisters_valid(
                os.remove(b),
                acts.drop_first(),
            ),
        }
    }
}

/// Applying a concatenation applies the parts in order.
pub proof fn lemma_apply_concat(os: Set<BindingModel>, a: Seq<ActionModel>, b: Seq<ActionModel>)
    ensures
        apply_actions(os, a + b) == apply_actions(apply_actions(os, a), b),
        actions_strict(os, a + b) == (actions_strict(os, a) && actions_strict(
            apply_actions(os, a),
            b,
        )),
        unregisters_valid(os, a + b) == (unregisters_valid(os, a) && unregisters_valid(
            apply_actions(os, a),
            b,
        )),
    decreases a.len(),
{
    if a.len() == 0 {
        assert(a + b =~= b);
    } else {
        assert((a + b)[0] == a[0]);
        assert((a + b).drop_first() =~= a.drop_first() + b);
        match a[0] {
            ActionModel::Reg(x) => lemma_apply_concat(os.insert(x), a.drop_first(), b),
            ActionModel::Unreg(x) => lemma_apply_concat(os.remove(x), a.drop_first(), b),
        }
    }
}

/// Strict action lists are in particular valid on the unregister side.
pub proof fn lemma_strict_implies_valid(os: Set<BindingModel>, acts: Seq<ActionModel>)
    requires
        actions_strict(os, acts),
    ensures
        unregisters_valid(os, acts),
    decreases acts.len(),
{
    if acts.len() > 0 {
        match acts[0] {
            ActionModel::Reg(b) => lemma_strict_implies_valid(os.insert(b), acts.drop_first()),
            ActionModel::Unreg(b) => lemma_strict_implies_valid(os.remove(b), acts.drop_first()),
        }
    }
}

/// The model of an optionally-bound slot.
pub open spec fn obind(o: Option<ShortcutBinding>) -> Option<BindingModel> {
    match o {
        Some(b) => Some(b.model()),
        None => None,
    }
}

/// The registry: three Session slots, four MassAction slots, and the two
/// tier-active flags.  Created once at startup with all slots unbound, the
/// Session tier enabled and the MassAction tier disabled.
pub struct RegistryState {
    pub prev_map: Option<ShortcutBinding>,
    pub next_map: Option<ShortcutBinding>,
    pub replay_current: Option<ShortcutBinding>,
    pub mass_toggle: Option<ShortcutBinding>,
    pub mass_play_current: Option<ShortcutBinding>,
    pub mass_next: Option<ShortcutBinding>,
    pub mass_prev: Option<ShortcutBinding>,
    pub session_enabled: bool,
    pub mass_enabled: bool,
}

impl RegistryState {
    /// The bindings the MassAction slots hold.
    pub open spec fn mass_set(&self) -> Set<BindingModel> {
        Set::new(
            |b: BindingModel|
                obind(self.mass_toggle) == Some(b) || obind(self.mass_play_current) == Some(b)
                    || obind(self.mass_next) == Some(b) || obind(self.mass_prev) == Some(b),
        )
    }

    /// The bindings the Session slots hold.
    pub open spec fn session_set(&self) -> Set<BindingModel> {
        Set::new(
            |b: BindingModel|
                obind(self.prev_map) == Some(b) || obind(self.next_map) == Some(b) || obind(
                    self.replay_current,
                ) == Some(b),
        )
    }

    /// Whether the Session tier owns a live OS registration for `b`: the
    /// tier is enabled, a Session slot holds `b`, and the MassAction tier is
    /// not active with the same binding (MassAction ownership wins while it
    /// is active).
    pub open spec fn session_live(&self, b: BindingModel) -> bool {
        self.session_enabled && self.session_set().contains(b) && !(self.mass_enabled
            && self.mass_set().contains(b))
    }

    /// The set of bindings with a live OS registration: each distinct
    /// binding appears at most once, however many slots request it.
    pub open spec fn live(&self) -> Set<BindingModel> {
        Set::new(
            |b: BindingModel|
                (self.mass_enabled && self.mass_set().contains(b)) || self.session_live(b),
        )
    }

    /// A fresh registry: all slots unbound, Session tier enabled,
    /// MassAction tier disabled, nothing live.
    pub fn new() -> (r: RegistryState)
        ensures
            r.prev_map is None && r.next_map is None && r.replay_current is None,
            r.mass_toggle is None && r.mass_play_current is None && r.mass_next is None
                && r.mass_prev is None,
            r.session_enabled,
            !r.mass_enabled,
            r.live() =~= Set::<BindingModel>::empty(),
    {
        RegistryState {
            prev_map: None,
            next_map: None,
            replay_current: None,
            mass_toggle: None,
            mass_play_current: None,
            mass_next: None,
            mass_prev: None,
            session_enabled: true,
            mass_enabled: false,
        }
    }
}

impl Default for RegistryState {
    /// The process-scoped starting state.
    fn default() -> (r: Self)
        ensures
            r.prev_map is None && r.next_map is None && r.replay_current is None,
            r.mass_toggle is None && r.mass_play_current is None && r.mass_next is None
                && r.mass_prev is None,
            r.session_enabled,
            !r.mass_enabled,
    {
        RegistryState::new()
    }
}

/// What a registry operation hands back to the embedding: the OS actions to
/// perform, in order, and the notifications to deliver.
#[derive(Debug)]
pub struct RegistryEffects {
    pub actions: Vec<OsAction>,
    pub notifications: Vec<Notification>,
}

/// The unregister step for one Session slot during a swap: emitted when the
/// slot is bound, its binding holds a live OS registration, and no earlier
/// slot already unregistered the same binding.
pub open spec fn unreg_once(s: &RegistryState, o: Option<BindingModel>, dup: bool) -> Seq<
    ActionModel,
> {
    match o {
        Some(b) => if s.session_live(b) && !dup {
            seq![ActionModel::Unreg(b)]
        } else {
            seq![]
        },
        None => seq![],
    }
}

/// The register step for one fresh Session binding: skipped when the
/// MassAction tier is active and owns the same binding (never double-register
/// a contested binding) or when an earlier slot already registered it.
pub open spec fn reg_once(s: &RegistryState, b: BindingModel, dup: bool) -> Seq<ActionModel> {
    if !(s.mass_enabled && s.mass_set().contains(b)) && !dup {
        seq![ActionModel::Reg(b)]
    } else {
        seq![]
    }
}

/// The OS actions of a successful Session re-registration on old state `s`:
/// first unregister whatever the Session tier held live, then — when the
/// tier is enabled — register the new bindings, each at most once and never
/// one the active MassAction tier owns.
pub open spec fn register_session_actions(
    s: &RegistryState,
    p: BindingModel,
    n: BindingModel,
    rb: BindingModel,
) -> Seq<ActionModel> {
    let o1 = obind(s.prev_map);
    let o2 = obind(s.next_map);
    let o3 = obind(s.replay_current);
    let unregs = unreg_once(s, o1, false) + unreg_once(s, o2, o2 == o1) + unreg_once(
        s,
        o3,
        o3 == o1 || o3 == o2,
    );
    let regs = if s.session_enabled {
        reg_once(s, p, false) + reg_once(s, n, n == p) + reg_once(s, rb, rb == p || rb == n)
    } else {
        seq![]
    };
    unregs + regs
}

proof fn lemma_apply_single(os: Set<BindingModel>, a: ActionModel)
    ensures
        apply_actions(os, seq![a]) == (match a {
            ActionModel::Reg(b) => os.insert(b),
            ActionModel::Unreg(b) => os.remove(b),
        }),
        actions_strict(os, seq![a]) == (match a {
            ActionModel::Reg(b) => !os.contains(b),
            ActionModel::Unreg(b) => os.contains(b),
        }),
{
    let rest = seq![a].drop_first();
    assert(rest =~= Seq::<ActionModel>::empty());
    assert(seq![a][0] == a);
    match a {
        ActionModel::Reg(b) => {
            assert(apply_actions(os.insert(b), rest) == os.insert(b));
            assert(actions_strict(os.insert(b), rest));
        },
        ActionModel::Unreg(b) => {
            assert(apply_actions(os.remove(b), rest) == os.remove(b));
            assert(actions_strict(os.remove(b), rest));
        },
    }
}

/// The net effect and non-redundancy of a Session swap: performed on an OS
/// holding exactly the old live set, the actions leave it holding exactly
/// the new live set.
#[verifier::rlimit(100)]
#[verifier::spinoff_prover]
proof fn lemma_register_session_effect(
    s0: &RegistryState,
    s1: &RegistryState,
    p: BindingModel,
    n: BindingModel,
    rb: BindingModel,
)
    requires
        obind(s1.prev_map) == Some(p),
        obind(s1.next_map) == Some(n),
        obind(s1.replay_current) == Some(rb),
        s1.mass_toggle == s0.mass_toggle,
        s1.mass_play_current == s0.mass_play_current,
        s1.mass_next == s0.mass_next,
        s1.mass_prev == s0.mass_prev,
        s1.session_enabled == s0.session_enabled,
        s1.mass_enabled == s0.mass_enabled,
    ensures
        apply_actions(s0.live(), register_session_actions(s0, p, n, rb)) == s1.live(),
        actions_strict(s0.live(), register_session_actions(s0, p, n, rb)),
{
    let o1 = obind(s0.prev_map);
    let o2 = obind(s0.next_map);
    let o3 = obind(s0.replay_current);
    let u1 = unreg_once(s0, o1, false);
    let u2 = unreg_once(s0, o2, o2 == o1);
    let u3 = unreg_once(s0, o3, o3 == o1 || o3 == o2);
    let r1 = reg_once(s0, p, false);
    let r2 = reg_once(s0, n, n == p);
    let r3 = reg_once(s0, rb, rb == p || rb == n);
    let regs = if s0.session_enabled {
        r1 + r2 + r3
    } else {
        Seq::<ActionModel>::empty()
    };
    let os0 = s0.live();
    assert(register_session_actions(s0, p, n, rb) == (u1 + u2 + u3) + regs);

    // The three unregisters remove exactly the old session-owned bindings,
    // leaving the MassAction-owned part of the live set untouched.
    let os1 = apply_actions(os0, u1);
    let os2 = apply_actions(os1, u2);
    let os3 = apply_actions(os2, u3);
    lemma_unreg_step(s0, os0, o1, false);
    lemma_unreg_step(s0, os1, o2, o2 == o1);
    lemma_unreg_step(s0, os2, o3, o3 == o1 || o3 == o2);
    lemma_apply_concat(os0, u1, u2);
    lemma_apply_concat(os0, u1 + u2, u3);
    assert((u1 + u2) + u3 =~= u1 + (u2 + u3));
    lemma_apply_concat(os1, u2, u3);
    assert(os3 == apply_actions(os0, u1 + u2 + u3));
    let mass_part = Set::new(|b: BindingModel| s0.mass_enabled && s0.mass_set().contains(b));
    assert(os3 =~= mass_part);

    // Strictness of the unregister phase.
    assert(actions_strict(os0, u1)) by {
        match o1 {
            Some(b) => {
                if s0.session_live(b) {
                    lemma_apply_single(os0, ActionModel::Unreg(b));
                }
            },
            None => {},
        }
    }
    assert(actions_strict(os1, u2)) by {
        match o2 {
            Some(b) => {
                if s0.session_live(b) && o2 != o1 {
                    lemma_apply_single(os1, ActionModel::Unreg(b));
                }
            },
            None => {},
        }
    }
    assert(actions_strict(os2, u3)) by {
        match o3 {
            Some(b) => {
                if s0.session_live(b) && o3 != o1 && o3 != o2 {
                    lemma_apply_single(os2, ActionModel::Unreg(b));
                }
            },
            None => {},
        }
    }
    assert(actions_strict(os0, u1 + u2 + u3));

    // The register phase adds exactly the new session-owned bindings.
    let os4 = apply_actions(os3, regs);
    if s0.session_enabled {
        let os3a = apply_actions(os3, r1);
        let os3b = apply_actions(os3a, r2);
        lemma_reg_step(s0, os3, p, false);
        lemma_reg_step(s0, os3a, n, n == p);
        lemma_reg_step(s0, os3b, rb, rb == p || rb == n);
        lemma_apply_concat(os3, r1, r2);
        lemma_apply_concat(os3, r1 + r2, r3);
        assert((r1 + r2) + r3 =~= r1 + (r2 + r3));
        lemma_apply_concat(os3a, r2, r3);
        assert(os4 == apply_actions(os3b, r3));
        assert(actions_strict(os3, r1)) by {
            if !(s0.mass_enabled && s0.mass_set().contains(p)) {
                lemma_apply_single(os3, ActionModel::Reg(p));
            }
        }
        assert(actions_strict(os3a, r2)) by {
            if !(s0.mass_enabled && s0.mass_set().contains(n)) && n != p {
                lemma_apply_single(os3a, ActionModel::Reg(n));
            }
        }
        assert(actions_strict(os3b, r3)) by {
            if !(s0.mass_enabled && s0.mass_set().contains(rb)) && rb != p && rb != n {
                lemma_apply_single(os3b, ActionModel::Reg(rb));
            }
        }
        assert(actions_strict(os3, regs));
    } else {
        assert(os4 == os3);
        assert(actions_strict(os3, regs));
    }
    lemma_apply_concat(os0, u1 + u2 + u3, regs);
    assert(apply_actions(os0, register_session_actions(s0, p, n, rb)) == os4);
    assert(actions_strict(os0, register_session_actions(s0, p, n, rb)));

    // The result is exactly the new state's live set.
    assert(s1.mass_set() =~= s0.mass_set());
    assert(os4 =~= s1.live());
}

proof fn lemma_unreg_step(
    s0: &RegistryState,
    os: Set<BindingModel>,
    o: Option<BindingModel>,
    dup: bool,
)
    ensures
        apply_actions(os, unreg_once(s0, o, dup)) == (match o {
            Some(b) => if s0.session_live(b) && !dup {
                os.remove(b)
            } else {
                os
            },
            None => os,
        }),
{
    match o {
        Some(b) => {
            if s0.session_live(b) && !dup {
                lemma_apply_single(os, ActionModel::Unreg(b));
            }
        },
        None => {},
    }
}

/// The accelerator a caller effectively supplied: the given string, or the
/// slot's default when none was, trimmed either way.
pub open spec fn effective_accel(o: Option<&str>, default: Seq<char>) -> Seq<char> {
    trim_spec(
        match o {
            Some(s) => s@,
            None => default,
        },
    )
}

/// Whether the binding is one of the four the MassAction tier is being
/// configured with.
fn in_quad(
    b: &ShortcutBinding,
    t: &ShortcutBinding,
    pc: &ShortcutBinding,
    n: &ShortcutBinding,
    pv: &ShortcutBinding,
) -> (r: bool)
    ensures
        r == quad_set(t.model(), pc.model(), n.model(), pv.model()).contains(b.model()),
{
    b.same_as(t) || b.same_as(pc) || b.same_as(n) || b.same_as(pv)
}

/// Whether an optional slot holds exactly this binding.
fn opt_same(o: &Option<ShortcutBinding>, b: &ShortcutBinding) -> (r: bool)
    ensures
        r == (obind(*o) == Some(b.model())),
{
    match o {
        Some(x) => x.same_as(b),
        None => false,
    }
}

impl RegistryState {
    /// Whether a MassAction slot holds this binding.
    fn mass_holds(&self, b: &ShortcutBinding) -> (r: bool)
        ensures
            r == self.mass_set().contains(b.model()),
    {
        opt_same(&self.mass_toggle, b) || opt_same(&self.mass_play_current, b) || opt_same(
            &self.mass_next,
            b,
        ) || opt_same(&self.mass_prev, b)
    }

    /// Whether a binding held by a Session slot is live at the OS level.
    fn slot_session_live(&self, b: &ShortcutBinding) -> (r: bool)
        requires
            self.session_set().contains(b.model()),
        ensures
            r == self.session_live(b.model()),
    {
        self.session_enabled && !(self.mass_enabled && self.mass_holds(b))
    }

    /// Replaces the three Session slots with freshly parsed bindings,
    /// atomically and idempotently: the previous Session registrations are
    /// unregistered first, and the new bindings are registered when the
    /// Session tier is enabled — except any binding the active MassAction
    /// tier already owns, which is never double-registered.  A missing
    /// accelerator falls back to the slot's default (`PageUp`, `PageDown`,
    /// `Insert`).  An unparsable accelerator fails the whole call, naming
    /// the offending slot, before any state change or OS action.
    /// Computes the OS actions of a Session swap on the current state.
    #[verifier::rlimit(100)]
    #[verifier::spinoff_prover]
    fn session_swap_actions(
        &self,
        pb: &ShortcutBinding,
        nb: &ShortcutBinding,
        rbv: &ShortcutBinding,
    ) -> (actions: Vec<OsAction>)
        ensures
            actions_model(actions@) == register_session_actions(
                self,
                pb.model(),
                nb.model(),
                rbv.model(),
            ),
    {
        let ghost pm = pb.model();
        let ghost nm = nb.model();
        let ghost rm = rbv.model();
        let ghost o1 = obind(self.prev_map);
        let ghost o2 = obind(self.next_map);
        let ghost o3 = obind(self.replay_current);
        let mut actions: Vec<OsAction> = Vec::new();
        // Unregister whatever the Session tier held live, each binding once.
        match &self.prev_map {
            Some(b) => {
                if self.slot_session_live(b) {
                    actions.push(OsAction::Unregister(b.clone()));
                }
            },
            None => {},
        }
        proof {
            assert(actions_model(actions@) =~= unreg_once(self, o1, false));
        }
        match &self.next_map {
            Some(b) => {
                if self.slot_session_live(b) && !opt_same(&self.prev_map, b) {
                    actions.push(OsAction::Unregister(b.clone()));
                }
            },
            None => {},
        }
        proof {
            assert(actions_model(actions@) =~= unreg_once(self, o1, false) + unreg_once(
                self,
                o2,
                o2 == o1,
            ));
        }
        match &self.replay_current {
            Some(b) => {
                if self.slot_session_live(b) && !opt_same(&self.prev_map, b) && !opt_same(
                    &self.next_map,
                    b,
                ) {
                    actions.push(OsAction::Unregister(b.clone()));
                }
            },
            None => {},
        }
        proof {
            assert(actions_model(actions@) =~= unreg_once(self, o1, false) + unreg_once(
                self,
                o2,
                o2 == o1,
            ) + unreg_once(self, o3, o3 == o1 || o3 == o2));
        }
        let ghost unregs = actions@;
        // Register the new bindings, unless the active MassAction tier owns
        // one of them, each binding once.
        if self.session_enabled {
            if !(self.mass_enabled && self.mass_holds(pb)) {
                actions.push(OsAction::Register(pb.clone()));
            }
            proof {
                assert(actions_model(actions@) =~= actions_model(unregs) + reg_once(
                    self,
                    pm,
                    false,
                ));
            }
            if !(self.mass_enabled && self.mass_holds(nb)) && !nb.same_as(pb) {
                actions.push(OsAction::Register(nb.clone()));
            }
            proof {
                assert(actions_model(actions@) =~= actions_model(unregs) + reg_once(
                    self,
                    pm,
                    false,
                ) + reg_once(self, nm, nm == pm));
            }
            if !(self.mass_enabled && self.mass_holds(rbv)) && !rbv.same_as(pb) && !rbv.same_as(
                nb,
            ) {
                actions.push(OsAction::Register(rbv.clone()));
            }
            proof {
                assert(actions_model(actions@) =~= actions_model(unregs) + (reg_once(
                    self,
                    pm,
                    false,
                ) + reg_once(self, nm, nm == pm) + reg_once(self, rm, rm == pm || rm == nm)));
            }
        }
        proof {
            assert(actions_model(actions@) =~= register_session_actions(self, pm, nm, rm));
        }
        actions
    }

    #[verifier::rlimit(100)]
    #[verifier::spinoff_prover]
    pub fn register_session(
        &mut self,
        prev_accel: Option<&str>,
        next_accel: Option<&str>,
        replay_accel: Option<&str>,
    ) -> (r: Result<RegistryEffects, EngineError>)
        ensures
            ({
                let ep = effective_accel(prev_accel, "PageUp"@);
                let en = effective_accel(next_accel, "PageDown"@);
                let er = effective_accel(replay_accel, "Insert"@);
                match r {
                    Ok(eff) => {
                        &&& accel_parses(ep) && accel_parses(en) && accel_parses(er)
                        &&& obind(final(self).prev_map) == Some(accel_binding(ep))
                        &&& obind(final(self).next_map) == Some(accel_binding(en))
                        &&& obind(final(self).replay_current) == Some(accel_binding(er))
                        &&& final(self).mass_toggle == old(self).mass_toggle
                        &&& final(self).mass_play_current == old(self).mass_play_current
                        &&& final(self).mass_next == old(self).mass_next
                        &&& final(self).mass_prev == old(self).mass_prev
                        &&& final(self).session_enabled == old(self).session_enabled
                        &&& final(self).mass_enabled == old(self).mass_enabled
                        &&& actions_model(eff.actions@) == register_session_actions(
                            old(self),
                            accel_binding(ep),
                            accel_binding(en),
                            accel_binding(er),
                        )
                        &&& apply_actions(old(self).live(), actions_model(eff.actions@))
                            == final(self).live()
                        &&& actions_strict(old(self).live(), actions_model(eff.actions@))
                        &&& eff.notifications@.len() == 1
                        &&& (eff.notifications@[0] matches Notification::SessionRegistered {
                            enabled,
                            prev,
                            next,
                            replay,
                        } && enabled == old(self).session_enabled && prev@ == ep && next@ == en
                            && replay@ == er)
                    },
                    Err(e) => {
                        &&& *final(self) == *old(self)
                        &&& !(accel_parses(ep) && accel_parses(en) && accel_parses(er))
                        &&& (!accel_parses(ep) ==> (e matches
                        EngineError::InvalidAccelerator { slot, raw } && slot
                            == HotkeySlot::SessionPrev && raw@ == ep))
                        &&& (accel_parses(ep) && !accel_parses(en) ==> (e matches
                        EngineError::InvalidAccelerator { slot, raw } && slot
                            == HotkeySlot::SessionNext && raw@ == en))
                        &&& (accel_parses(ep) && accel_parses(en) && !accel_parses(er) ==> (
                        e matches EngineError::InvalidAccelerator { slot, raw } && slot
                            == HotkeySlot::SessionReplay && raw@ == er))
                    },
                }
            }),
    {
        let ghost s0 = *self;
        let prev_raw = match prev_accel {
            Some(s) => trimmed(s),
            None => trimmed("PageUp"),
        };
        let next_raw = match next_accel {
            Some(s) => trimmed(s),
            None => trimmed("PageDown"),
        };
        let replay_raw = match replay_accel {
            Some(s) => trimmed(s),
            None => trimmed("Insert"),
        };
        let pb = match parse_accelerator(prev_raw.as_str(), HotkeySlot::SessionPrev) {
            Ok(b) => b,
            Err(e) => {
                return Err(e);
            },
        };
        let nb = match parse_accelerator(next_raw.as_str(), HotkeySlot::SessionNext) {
            Ok(b) => b,
            Err(e) => {
                return Err(e);
            },
        };
        let rbv = match parse_accelerator(replay_raw.as_str(), HotkeySlot::SessionReplay) {
            Ok(b) => b,
            Err(e) => {
                return Err(e);
            },
        };
        let ghost pm = pb.model();
        let ghost nm = nb.model();
        let ghost rm = rbv.model();
        let actions = self.session_swap_actions(&pb, &nb, &rbv);

        // Store the new bindings: the swap is complete before the embedding
        // sees a single action.
        self.prev_map = Some(pb);
        self.next_map = Some(nb);
        self.replay_current = Some(rbv);

        let enabled_now = self.session_enabled;
        let mut notifications: Vec<Notification> = Vec::new();
        notifications.push(
            Notification::SessionRegistered {
                enabled: enabled_now,
                prev: prev_raw,
                next: next_raw,
                replay: replay_raw,
            },
        );
        proof {
            lemma_register_session_effect(&s0, self, pm, nm, rm);
        }
        Ok(RegistryEffects { actions, notifications })
    }

    /// Stores the Session tier's enabled flag and emits a status
    /// notification.  On an actual transition the bound Session bindings
    /// are registered (skipping any the active MassAction tier owns) or
    /// unregistered (skipping any not live); repeating the current state
    /// issues no OS action at all, so disabling twice never produces a
    /// redundant unregister.
    #[verifier::rlimit(100)]
    #[verifier::spinoff_prover]
    pub fn set_session_enabled(&mut self, enabled: bool) -> (eff: RegistryEffects)
        ensures
            final(self).session_enabled == enabled,
            final(self).prev_map == old(self).prev_map,
            final(self).next_map == old(self).next_map,
            final(self).replay_current == old(self).replay_current,
            final(self).mass_toggle == old(self).mass_toggle,
            final(self).mass_play_current == old(self).mass_play_current,
            final(self).mass_next == old(self).mass_next,
            final(self).mass_prev == old(self).mass_prev,
            final(self).mass_enabled == old(self).mass_enabled,
            actions_model(eff.actions@) == set_session_enabled_actions(old(self), enabled),
            apply_actions(old(self).live(), actions_model(eff.actions@)) == final(self).live(),
            actions_strict(old(self).live(), actions_model(eff.actions@)),
            eff.notifications@.len() == 1,
            eff.notifications@[0] == (Notification::SessionStatus { enabled }),
    {
        let ghost s0 = *self;
        let ghost o1 = obind(self.prev_map);
        let ghost o2 = obind(self.next_map);
        let ghost o3 = obind(self.replay_current);
        let mut actions: Vec<OsAction> = Vec::new();
        if enabled && !self.session_enabled {
            // Turning the tier on: register what the slots hold.
            match &self.prev_map {
                Some(b) => {
                    if !(self.mass_enabled && self.mass_holds(b)) {
                        actions.push(OsAction::Register(b.clone()));
                    }
                },
                None => {},
            }
            proof {
                assert(actions_model(actions@) =~= slot_reg_once(&s0, o1, false));
            }
            match &self.next_map {
                Some(b) => {
                    if !(self.mass_enabled && self.mass_holds(b)) && !opt_same(
                        &self.prev_map,
                        b,
                    ) {
                        actions.push(OsAction::Register(b.clone()));
                    }
                },
                None => {},
            }
            proof {
                assert(actions_model(actions@) =~= slot_reg_once(&s0, o1, false) + slot_reg_once(
                    &s0,
                    o2,
                    o2 == o1,
                ));
            }
            match &self.replay_current {
                Some(b) => {
                    if !(self.mass_enabled && self.mass_holds(b)) && !opt_same(&self.prev_map, b)
                        && !opt_same(&self.next_map, b) {
                        actions.push(OsAction::Register(b.clone()));
                    }
                },
                None => {},
            }
            proof {
                assert(actions_model(actions@) =~= slot_reg_once(&s0, o1, false) + slot_reg_once(
                    &s0,
                    o2,
                    o2 == o1,
                ) + slot_reg_once(&s0, o3, o3 == o1 || o3 == o2));
            }
        } else if !enabled && self.session_enabled {
            // Turning the tier off: unregister what it held live.
            match &self.prev_map {
                Some(b) => {
                    if self.slot_session_live(b) {
                        actions.push(OsAction::Unregister(b.clone()));
                    }
                },
                None => {},
            }
            proof {
                assert(actions_model(actions@) =~= unreg_once(&s0, o1, false));
            }
            match &self.next_map {
                Some(b) => {
                    if self.slot_session_live(b) && !opt_same(&self.prev_map, b) {
                        actions.push(OsAction::Unregister(b.clone()));
                    }
                },
                None => {},
            }
            proof {
                assert(actions_model(actions@) =~= unreg_once(&s0, o1, false) + unreg_once(
                    &s0,
                    o2,
                    o2 == o1,
                ));
            }
            match &self.replay_current {
                Some(b) => {
                    if self.slot_session_live(b) && !opt_same(&self.prev_map, b) && !opt_same(
                        &self.next_map,
                        b,
                    ) {
                        actions.push(OsAction::Unregister(b.clone()));
                    }
                },
                None => {},
            }
            proof {
                assert(actions_model(actions@) =~= unreg_once(&s0, o1, false) + unreg_once(
                    &s0,
                    o2,
                    o2 == o1,
                ) + unreg_once(&s0, o3, o3 == o1 || o3 == o2));
            }
        }
        proof {
            assert(actions_model(actions@) =~= set_session_enabled_actions(&s0, enabled));
        }
        self.session_enabled = enabled;
        let mut notifications: Vec<Notification> = Vec::new();
        notifications.push(Notification::SessionStatus { enabled });
        proof {
            lemma_set_session_effect(&s0, self, enabled);
        }
        RegistryEffects { actions, notifications }
    }

    /// Whether a Session slot holds this binding.
    fn session_holds(&self, b: &ShortcutBinding) -> (r: bool)
        ensures
            r == self.session_set().contains(b.model()),
    {
        opt_same(&self.prev_map, b) || opt_same(&self.next_map, b) || opt_same(
            &self.replay_current,
            b,
        )
    }

    /// Collects the stale-retirement unregisters of a MassAction enable.
    #[verifier::rlimit(100)]
    #[verifier::spinoff_prover]
    fn mass_stale_unreg_list(
        &self,
        t: &ShortcutBinding,
        pc: &ShortcutBinding,
        nn: &ShortcutBinding,
        pv: &ShortcutBinding,
    ) -> (actions: Vec<OsAction>)
        ensures
            actions_model(actions@) == mass_stale_unregs(
                self,
                quad_set(t.model(), pc.model(), nn.model(), pv.model()),
            ),
    {
        let ghost nset = quad_set(t.model(), pc.model(), nn.model(), pv.model());
        let ghost m1 = obind(self.mass_toggle);
        let ghost m2 = obind(self.mass_play_current);
        let ghost m3 = obind(self.mass_next);
        let ghost m4 = obind(self.mass_prev);
        let mut actions: Vec<OsAction> = Vec::new();
        match &self.mass_toggle {
            Some(x) => {
                if self.mass_enabled && !in_quad(x, t, pc, nn, pv) && !(self.session_enabled
                    && self.session_holds(x)) {
                    actions.push(OsAction::Unregister(x.clone()));
                }
            },
            None => {},
        }
        proof {
            assert(actions_model(actions@) =~= cond_unreg(
                m1 matches Some(b) && stale_cond(self, b, nset),
                m1->0,
            ));
        }
        let ghost p1 = actions@;
        match &self.mass_play_current {
            Some(x) => {
                if self.mass_enabled && !in_quad(x, t, pc, nn, pv) && !(self.session_enabled
                    && self.session_holds(x)) && !opt_same(&self.mass_toggle, x) {
                    actions.push(OsAction::Unregister(x.clone()));
                }
            },
            None => {},
        }
        proof {
            assert(actions_model(actions@) =~= actions_model(p1) + cond_unreg(
                m2 matches Some(b) && stale_cond(self, b, nset) && m2 != m1,
                m2->0,
            ));
        }
        let ghost p2 = actions@;
        match &self.mass_next {
            Some(x) => {
                if self.mass_enabled && !in_quad(x, t, pc, nn, pv) && !(self.session_enabled
                    && self.session_holds(x)) && !opt_same(&self.mass_toggle, x) && !opt_same(
                    &self.mass_play_current,
                    x,
                ) {
                    actions.push(OsAction::Unregister(x.clone()));
                }
            },
            None => {},
        }
        proof {
            assert(actions_model(actions@) =~= actions_model(p2) + cond_unreg(
                m3 matches Some(b) && stale_cond(self, b, nset) && m3 != m1 && m3 != m2,
                m3->0,
            ));
        }
        let ghost p3 = actions@;
        match &self.mass_prev {
            Some(x) => {
                if self.mass_enabled && !in_quad(x, t, pc, nn, pv) && !(self.session_enabled
                    && self.session_holds(x)) && !opt_same(&self.mass_toggle, x) && !opt_same(
                    &self.mass_play_current,
                    x,
                ) && !opt_same(&self.mass_next, x) {
                    actions.push(OsAction::Unregister(x.clone()));
                }
            },
            None => {},
        }
        proof {
            assert(actions_model(actions@) =~= actions_model(p3) + cond_unreg(
                m4 matches Some(b) && stale_cond(self, b, nset) && m4 != m1 && m4 != m2 && m4
                    != m3,
                m4->0,
            ));
            assert(actions_model(actions@) =~= mass_stale_unregs(self, nset));
        }
        actions
    }

    /// Collects the Session evictions of a MassAction enable.
    #[verifier::rlimit(100)]
    #[verifier::spinoff_prover]
    fn mass_evict_unreg_list(
        &self,
        t: &ShortcutBinding,
        pc: &ShortcutBinding,
        nn: &ShortcutBinding,
        pv: &ShortcutBinding,
    ) -> (actions: Vec<OsAction>)
        ensures
            actions_model(actions@) == mass_evict_unregs(
                self,
                quad_set(t.model(), pc.model(), nn.model(), pv.model()),
            ),
    {
        let ghost nset = quad_set(t.model(), pc.model(), nn.model(), pv.model());
        let ghost o1 = obind(self.prev_map);
        let ghost o2 = obind(self.next_map);
        let ghost o3 = obind(self.replay_current);
        let mut actions: Vec<OsAction> = Vec::new();
        match &self.prev_map {
            Some(x) => {
                if self.slot_session_live(x) && in_quad(x, t, pc, nn, pv) {
                    actions.push(OsAction::Unregister(x.clone()));
                }
            },
            None => {},
        }
        proof {
            assert(actions_model(actions@) =~= cond_unreg(
                o1 matches Some(b) && evict_cond(self, b, nset),
                o1->0,
            ));
        }
        let ghost p1 = actions@;
        match &self.next_map {
            Some(x) => {
                if self.slot_session_live(x) && in_quad(x, t, pc, nn, pv) && !opt_same(
                    &self.prev_map,
                    x,
                ) {
                    actions.push(OsAction::Unregister(x.clone()));
                }
            },
            None => {},
        }
        proof {
            assert(actions_model(actions@) =~= actions_model(p1) + cond_unreg(
                o2 matches Some(b) && evict_cond(self, b, nset) && o2 != o1,
                o2->0,
            ));
        }
        match &self.replay_current {
            Some(x) => {
                if self.slot_session_live(x) && in_quad(x, t, pc, nn, pv) && !opt_same(
                    &self.prev_map,
                    x,
                ) && !opt_same(&self.next_map, x) {
                    actions.push(OsAction::Unregister(x.clone()));
                }
            },
            None => {},
        }
        proof {
            assert(actions_model(actions@) =~= actions_model(p1) + cond_unreg(
                o2 matches Some(b) && evict_cond(self, b, nset) && o2 != o1,
                o2->0,
            ) + cond_unreg(
                o3 matches Some(b) && evict_cond(self, b, nset) && o3 != o1 && o3 != o2,
                o3->0,
            ));
            assert(actions_model(actions@) =~= mass_evict_unregs(self, nset));
        }
        actions
    }

    /// Collects the fresh registrations of a MassAction enable.
    #[verifier::rlimit(100)]
    #[verifier::spinoff_prover]
    fn mass_fresh_reg_list(
        &self,
        t: &ShortcutBinding,
        pc: &ShortcutBinding,
        nn: &ShortcutBinding,
        pv: &ShortcutBinding,
    ) -> (actions: Vec<OsAction>)
        ensures
            actions_model(actions@) == mass_enable_regs(
                self,
                t.model(),
                pc.model(),
                nn.model(),
                pv.model(),
            ),
    {
        let mut actions: Vec<OsAction> = Vec::new();
        if !(self.mass_enabled && self.mass_holds(t)) {
            actions.push(OsAction::Register(t.clone()));
        }
        proof {
            assert(actions_model(actions@) =~= cond_reg(fresh_cond(self, t.model()), t.model()));
        }
        let ghost p1 = actions@;
        if !(self.mass_enabled && self.mass_holds(pc)) && !pc.same_as(t) {
            actions.push(OsAction::Register(pc.clone()));
        }
        proof {
            assert(actions_model(actions@) =~= actions_model(p1) + cond_reg(
                fresh_cond(self, pc.model()) && pc.model() != t.model(),
                pc.model(),
            ));
        }
        let ghost p2 = actions@;
        if !(self.mass_enabled && self.mass_holds(nn)) && !nn.same_as(t) && !nn.same_as(pc) {
            actions.push(OsAction::Register(nn.clone()));
        }
        proof {
            assert(actions_model(actions@) =~= actions_model(p2) + cond_reg(
                fresh_cond(self, nn.model()) && nn.model() != t.model() && nn.model()
                    != pc.model(),
                nn.model(),
            ));
        }
        if !(self.mass_enabled && self.mass_holds(pv)) && !pv.same_as(t) && !pv.same_as(pc)
            && !pv.same_as(nn) {
            actions.push(OsAction::Register(pv.clone()));
        }
        proof {
            assert(actions_model(actions@) =~= actions_model(p2) + cond_reg(
                fresh_cond(self, nn.model()) && nn.model() != t.model() && nn.model()
                    != pc.model(),
                nn.model(),
            ) + cond_reg(
                fresh_cond(self, pv.model()) && pv.model() != t.model() && pv.model()
                    != pc.model() && pv.model() != nn.model(),
                pv.model(),
            ));
            assert(actions_model(actions@) =~= mass_enable_regs(
                self,
                t.model(),
                pc.model(),
                nn.model(),
                pv.model(),
            ));
        }
        actions
    }

    /// Computes the OS actions of enabling the MassAction tier with the four
    /// given bindings, on the current state.
    #[verifier::rlimit(100)]
    #[verifier::spinoff_prover]
    fn mass_enable_action_list(
        &self,
        t: &ShortcutBinding,
        pc: &ShortcutBinding,
        nn: &ShortcutBinding,
        pv: &ShortcutBinding,
    ) -> (actions: Vec<OsAction>)
        ensures
            actions_model(actions@) == mass_enable_actions(
                self,
                t.model(),
                pc.model(),
                nn.model(),
                pv.model(),
            ),
    {
        let mut actions = self.mass_stale_unreg_list(t, pc, nn, pv);
        let mut evicts = self.mass_evict_unreg_list(t, pc, nn, pv);
        let mut regs = self.mass_fresh_reg_list(t, pc, nn, pv);
        let ghost a0 = actions@;
        actions.append(&mut evicts);
        let ghost a1 = actions@;
        actions.append(&mut regs);
        proof {
            let tm = t.model();
            let pcm = pc.model();
            let nm = nn.model();
            let pvm = pv.model();
            let nset = quad_set(tm, pcm, nm, pvm);
            assert(actions_model(a1) =~= mass_stale_unregs(self, nset) + mass_evict_unregs(
                self,
                nset,
            ));
            assert(actions_model(actions@) =~= actions_model(a1) + mass_enable_regs(
                self,
                tm,
                pcm,
                nm,
                pvm,
            ));
            assert(actions_model(actions@) =~= mass_enable_actions(self, tm, pcm, nm, pvm));
        }
        actions
    }

    /// Collects the unregisters of a MassAction disable.
    #[verifier::rlimit(100)]
    #[verifier::spinoff_prover]
    fn mass_off_unreg_list(&self) -> (actions: Vec<OsAction>)
        requires
            self.mass_enabled,
        ensures
            actions_model(actions@) == mass_off_unregs(self),
    {
        let ghost m1 = obind(self.mass_toggle);
        let ghost m2 = obind(self.mass_play_current);
        let ghost m3 = obind(self.mass_next);
        let ghost m4 = obind(self.mass_prev);
        let mut actions: Vec<OsAction> = Vec::new();
        match &self.mass_toggle {
            Some(x) => {
                actions.push(OsAction::Unregister(x.clone()));
            },
            None => {},
        }
        proof {
            assert(actions_model(actions@) =~= cond_unreg(m1 is Some, m1->0));
        }
        let ghost p1 = actions@;
        match &self.mass_play_current {
            Some(x) => {
                if !opt_same(&self.mass_toggle, x) {
                    actions.push(OsAction::Unregister(x.clone()));
                }
            },
            None => {},
        }
        proof {
            assert(actions_model(actions@) =~= actions_model(p1) + cond_unreg(
                m2 is Some && m2 != m1,
                m2->0,
            ));
        }
        let ghost p2 = actions@;
        match &self.mass_next {
            Some(x) => {
                if !opt_same(&self.mass_toggle, x) && !opt_same(&self.mass_play_current, x) {
                    actions.push(OsAction::Unregister(x.clone()));
                }
            },
            None => {},
        }
        proof {
            assert(actions_model(actions@) =~= actions_model(p2) + cond_unreg(
                m3 is Some && m3 != m1 && m3 != m2,
                m3->0,
            ));
        }
        let ghost p3 = actions@;
        match &self.mass_prev {
            Some(x) => {
                if !opt_same(&self.mass_toggle, x) && !opt_same(&self.mass_play_current, x)
                    && !opt_same(&self.mass_next, x) {
                    actions.push(OsAction::Unregister(x.clone()));
                }
            },
            None => {},
        }
        proof {
            assert(actions_model(actions@) =~= actions_model(p3) + cond_unreg(
                m4 is Some && m4 != m1 && m4 != m2 && m4 != m3,
                m4->0,
            ));
            assert(actions_model(actions@) =~= mass_off_unregs(self));
        }
        actions
    }

    /// Collects the Session restoration after a MassAction disable.
    #[verifier::rlimit(100)]
    #[verifier::spinoff_prover]
    fn mass_restore_reg_list(&self) -> (actions: Vec<OsAction>)
        ensures
            actions_model(actions@) == mass_restore_regs(self),
    {
        let ghost o1 = obind(self.prev_map);
        let ghost o2 = obind(self.next_map);
        let ghost o3 = obind(self.replay_current);
        let mut actions: Vec<OsAction> = Vec::new();
        match &self.prev_map {
            Some(x) => {
                actions.push(OsAction::Register(x.clone()));
            },
            None => {},
        }
        proof {
            assert(actions_model(actions@) =~= cond_reg(o1 is Some, o1->0));
        }
        let ghost p1 = actions@;
        match &self.next_map {
            Some(x) => {
                if !opt_same(&self.prev_map, x) {
                    actions.push(OsAction::Register(x.clone()));
                }
            },
            None => {},
        }
        proof {
            assert(actions_model(actions@) =~= actions_model(p1) + cond_reg(
                o2 is Some && o2 != o1,
                o2->0,
            ));
        }
        let ghost p2 = actions@;
        match &self.replay_current {
            Some(x) => {
                if !opt_same(&self.prev_map, x) && !opt_same(&self.next_map, x) {
                    actions.push(OsAction::Register(x.clone()));
                }
            },
            None => {},
        }
        proof {
            assert(actions_model(actions@) =~= actions_model(p2) + cond_reg(
                o3 is Some && o3 != o1 && o3 != o2,
                o3->0,
            ));
            assert(actions_model(actions@) =~= mass_restore_regs(self));
        }
        actions
    }

    /// Computes the OS actions of disabling the MassAction tier on the
    /// current state.
    #[verifier::rlimit(100)]
    #[verifier::spinoff_prover]
    fn mass_disable_action_list(&self) -> (actions: Vec<OsAction>)
        ensures
            actions_model(actions@) == mass_disable_actions(self),
    {
        if !self.mass_enabled {
            let actions: Vec<OsAction> = Vec::new();
            proof {
                assert(actions_model(actions@) =~= mass_disable_actions(self));
            }
            return actions;
        }
        let mut actions = self.mass_off_unreg_list();
        let ghost a0 = actions@;
        if self.session_enabled {
            let mut regs = self.mass_restore_reg_list();
            actions.append(&mut regs);
            proof {
                assert(actions_model(actions@) =~= actions_model(a0) + mass_restore_regs(self));
            }
        }
        proof {
            assert(actions_model(actions@) =~= mass_disable_actions(self));
        }
        actions
    }

    /// Configures and toggles the MassAction tier.  All four accelerators
    /// are normalized and parsed first — any failure aborts the whole call,
    /// naming the offending slot, before any state change — and the four
    /// parsed bindings are stored whether the tier is being enabled or
    /// disabled, so a later toggle can reuse them.  Enabling evicts any live
    /// Session binding the new set claims (MassAction ownership wins while
    /// active) and registers the new set without ever double-registering;
    /// disabling unregisters the tier's bindings and restores the Session
    /// tier's own, and is a no-op on an already-disabled tier.  A status
    /// notification is emitted either way.
    #[verifier::rlimit(100)]
    #[verifier::spinoff_prover]
    pub fn set_mass_enabled(
        &mut self,
        enabled: bool,
        toggle_accel: &str,
        play_current_accel: &str,
        next_accel: &str,
        prev_accel: &str,
    ) -> (r: Result<RegistryEffects, EngineError>)
        ensures
            ({
                let et = trim_spec(toggle_accel@);
                let ec = trim_spec(play_current_accel@);
                let en = trim_spec(next_accel@);
                let ev = trim_spec(prev_accel@);
                match r {
                    Ok(eff) => {
                        &&& accel_parses(et) && accel_parses(ec) && accel_parses(en)
                            && accel_parses(ev)
                        &&& obind(final(self).mass_toggle) == Some(accel_binding(et))
                        &&& obind(final(self).mass_play_current) == Some(accel_binding(ec))
                        &&& obind(final(self).mass_next) == Some(accel_binding(en))
                        &&& obind(final(self).mass_prev) == Some(accel_binding(ev))
                        &&& final(self).prev_map == old(self).prev_map
                        &&& final(self).next_map == old(self).next_map
                        &&& final(self).replay_current == old(self).replay_current
                        &&& final(self).session_enabled == old(self).session_enabled
                        &&& final(self).mass_enabled == enabled
                        &&& (enabled ==> actions_model(eff.actions@) == mass_enable_actions(
                            old(self),
                            accel_binding(et),
                            accel_binding(ec),
                            accel_binding(en),
                            accel_binding(ev),
                        ) && actions_strict(old(self).live(), actions_model(eff.actions@)))
                        &&& (!enabled ==> actions_model(eff.actions@) == mass_disable_actions(
                            old(self),
                        ))
                        &&& apply_actions(old(self).live(), actions_model(eff.actions@))
                            == final(self).live()
                        &&& unregisters_valid(old(self).live(), actions_model(eff.actions@))
                        &&& eff.notifications@.len() == 1
                        &&& eff.notifications@[0] == (Notification::MassStatus { enabled })
                    },
                    Err(e) => {
                        &&& *final(self) == *old(self)
                        &&& !(accel_parses(et) && accel_parses(ec) && accel_parses(en)
                            && accel_parses(ev))
                        &&& (!accel_parses(et) ==> (e matches
                        EngineError::InvalidAccelerator { slot, raw } && slot
                            == HotkeySlot::MassToggle && raw@ == et))
                        &&& (accel_parses(et) && !accel_parses(ec) ==> (e matches
                        EngineError::InvalidAccelerator { slot, raw } && slot
                            == HotkeySlot::MassPlayCurrent && raw@ == ec))
                        &&& (accel_parses(et) && accel_parses(ec) && !accel_parses(en) ==> (
                        e matches EngineError::InvalidAccelerator { slot, raw } && slot
                            == HotkeySlot::MassNext && raw@ == en))
                        &&& (accel_parses(et) && accel_parses(ec) && accel_parses(en)
                            && !accel_parses(ev) ==> (e matches
                        EngineError::InvalidAccelerator { slot, raw } && slot
                            == HotkeySlot::MassPrev && raw@ == ev))
                    },
                }
            }),
    {
        let ghost s0 = *self;
        let toggle_raw = trimmed(toggle_accel);
        let play_raw = trimmed(play_current_accel);
        let next_raw = trimmed(next_accel);
        let prev_raw = trimmed(prev_accel);
        let tb = match parse_accelerator(toggle_raw.as_str(), HotkeySlot::MassToggle) {
            Ok(b) => b,
            Err(e) => {
                return Err(e);
            },
        };
        let pcb = match parse_accelerator(play_raw.as_str(), HotkeySlot::MassPlayCurrent) {
            Ok(b) => b,
            Err(e) => {
                return Err(e);
            },
        };
        let nnb = match parse_accelerator(next_raw.as_str(), HotkeySlot::MassNext) {
            Ok(b) => b,
            Err(e) => {
                return Err(e);
            },
        };
        let pvb = match parse_accelerator(prev_raw.as_str(), HotkeySlot::MassPrev) {
            Ok(b) => b,
            Err(e) => {
                return Err(e);
            },
        };
        let ghost tm = tb.model();
        let ghost pcm = pcb.model();
        let ghost nm = nnb.model();
        let ghost pvm = pvb.model();
        let actions = if enabled {
            self.mass_enable_action_list(&tb, &pcb, &nnb, &pvb)
        } else {
            self.mass_disable_action_list()
        };
        // Store the four bindings whether enabling or disabling.
        self.mass_toggle = Some(tb);
        self.mass_play_current = Some(pcb);
        self.mass_next = Some(nnb);
        self.mass_prev = Some(pvb);
        self.mass_enabled = enabled;
        let mut notifications: Vec<Notification> = Vec::new();
        notifications.push(Notification::MassStatus { enabled });
        proof {
            if enabled {
                lemma_mass_enable_effect(&s0, self, tm, pcm, nm, pvm);
                lemma_strict_implies_valid(s0.live(), mass_enable_actions(&s0, tm, pcm, nm, pvm));
            } else {
                assert(self.session_set() =~= s0.session_set());
                lemma_mass_disable_effect(&s0, self);
            }
        }
        Ok(RegistryEffects { actions, notifications })
    }

    /// Routes a raw "shortcut pressed" signal to the logical action it
    /// stands for, in fixed priority order: the active MassAction tier's
    /// four bindings first (Toggle, PlayCurrent, Prev, Next — MassAction
    /// wins when a contested binding fires), then the active Session tier's
    /// three (PrevMap, NextMap, ReplayCurrent).  A press matching nothing is
    /// dropped silently.
    pub fn dispatch(&self, pressed: &ShortcutBinding) -> (r: Option<HotkeyAction>)
        ensures
            r == dispatch_spec(self, pressed.model()),
    {
        if self.mass_enabled {
            if opt_same(&self.mass_toggle, pressed) {
                return Some(HotkeyAction::MassToggle);
            }
            if opt_same(&self.mass_play_current, pressed) {
                return Some(HotkeyAction::MassPlayCurrent);
            }
            if opt_same(&self.mass_prev, pressed) {
                return Some(HotkeyAction::MassPrev);
            }
            if opt_same(&self.mass_next, pressed) {
                return Some(HotkeyAction::MassNext);
            }
        }
        if self.session_enabled {
            if opt_same(&self.prev_map, pressed) {
                return Some(HotkeyAction::NavPlay { delta: -1 });
            }
            if opt_same(&self.next_map, pressed) {
                return Some(HotkeyAction::NavPlay { delta: 1 });
            }
            if opt_same(&self.replay_current, pressed) {
                return Some(HotkeyAction::ReplayCurrent);
            }
        }
        None
    }

    /// Collects the teardown unregisters for the Session slots.
    #[verifier::rlimit(100)]
    #[verifier::spinoff_prover]
    fn teardown_session_list(&self) -> (actions: Vec<OsAction>)
        ensures
            actions_model(actions@) == teardown_session_unregs(self),
    {
        let ghost o1 = obind(self.prev_map);
        let ghost o2 = obind(self.next_map);
        let ghost o3 = obind(self.replay_current);
        let mut actions: Vec<OsAction> = Vec::new();
        match &self.prev_map {
            Some(x) => {
                if self.slot_session_live(x) {
                    actions.push(OsAction::Unregister(x.clone()));
                }
            },
            None => {},
        }
        proof {
            assert(actions_model(actions@) =~= cond_unreg(
                o1 matches Some(b) && self.session_live(b),
                o1->0,
            ));
        }
        let ghost p1 = actions@;
        match &self.next_map {
            Some(x) => {
                if self.slot_session_live(x) && !opt_same(&self.prev_map, x) {
                    actions.push(OsAction::Unregister(x.clone()));
                }
            },
            None => {},
        }
        proof {
            assert(actions_model(actions@) =~= actions_model(p1) + cond_unreg(
                o2 matches Some(b) && self.session_live(b) && o2 != o1,
                o2->0,
            ));
        }
        match &self.replay_current {
            Some(x) => {
                if self.slot_session_live(x) && !opt_same(&self.prev_map, x) && !opt_same(
                    &self.next_map,
                    x,
                ) {
                    actions.push(OsAction::Unregister(x.clone()));
                }
            },
            None => {},
        }
        proof {
            assert(actions_model(actions@) =~= actions_model(p1) + cond_unreg(
                o2 matches Some(b) && self.session_live(b) && o2 != o1,
                o2->0,
            ) + cond_unreg(
                o3 matches Some(b) && self.session_live(b) && o3 != o1 && o3 != o2,
                o3->0,
            ));
            assert(actions_model(actions@) =~= teardown_session_unregs(self));
        }
        actions
    }

    /// Tears the registry down: every currently-live binding of either tier
    /// is unregistered, exactly once, and all seven slots are cleared.  The
    /// tier flags are untouched.  Safe to call repeatedly: a second call
    /// finds nothing live and issues nothing.
    #[verifier::rlimit(100)]
    #[verifier::spinoff_prover]
    pub fn teardown(&mut self) -> (eff: RegistryEffects)
        ensures
            final(self).prev_map is None,
            final(self).next_map is None,
            final(self).replay_current is None,
            final(self).mass_toggle is None,
            final(self).mass_play_current is None,
            final(self).mass_next is None,
            final(self).mass_prev is None,
            final(self).session_enabled == old(self).session_enabled,
            final(self).mass_enabled == old(self).mass_enabled,
            final(self).live() =~= Set::<BindingModel>::empty(),
            actions_model(eff.actions@) == teardown_actions(old(self)),
            apply_actions(old(self).live(), actions_model(eff.actions@)) == final(self).live(),
            actions_strict(old(self).live(), actions_model(eff.actions@)),
            eff.notifications@.len() == 0,
    {
        let ghost s0 = *self;
        let mut actions = self.teardown_session_list();
        let ghost a0 = actions@;
        if self.mass_enabled {
            let mut mass = self.mass_off_unreg_list();
            actions.append(&mut mass);
            proof {
                assert(actions_model(actions@) =~= actions_model(a0) + mass_off_unregs(&s0));
            }
        }
        proof {
            assert(actions_model(actions@) =~= teardown_actions(&s0));
        }
        self.prev_map = None;
        self.next_map = None;
        self.replay_current = None;
        self.mass_toggle = None;
        self.mass_play_current = None;
        self.mass_next = None;
        self.mass_prev = None;
        let notifications: Vec<Notification> = Vec::new();
        proof {
            lemma_teardown_effect(&s0, self);
        }
        RegistryEffects { actions, notifications }
    }
}

/// The register step for one bound Session slot when the tier turns on:
/// skipped for an unbound slot, a binding the active MassAction tier owns,
/// or one an earlier slot already registered.
pub open spec fn slot_reg_once(s: &RegistryState, o: Option<BindingModel>, dup: bool) -> Seq<
    ActionModel,
> {
    match o {
        Some(b) => if !(s.mass_enabled && s.mass_set().contains(b)) && !dup {
            seq![ActionModel::Reg(b)]
        } else {
            seq![]
        },
        None => seq![],
    }
}

/// The OS actions of storing the Session tier's enabled flag: on an actual
/// transition the bound Session bindings are registered or unregistered,
/// each at most once and never contesting an active MassAction binding; with
/// the flag already in the requested state nothing is issued.
pub open spec fn set_session_enabled_actions(s: &RegistryState, on: bool) -> Seq<ActionModel> {
    let o1 = obind(s.prev_map);
    let o2 = obind(s.next_map);
    let o3 = obind(s.replay_current);
    if on && !s.session_enabled {
        slot_reg_once(s, o1, false) + slot_reg_once(s, o2, o2 == o1) + slot_reg_once(
            s,
            o3,
            o3 == o1 || o3 == o2,
        )
    } else if !on && s.session_enabled {
        unreg_once(s, o1, false) + unreg_once(s, o2, o2 == o1) + unreg_once(
            s,
            o3,
            o3 == o1 || o3 == o2,
        )
    } else {
        seq![]
    }
}

proof fn lemma_slot_reg_step(
    s0: &RegistryState,
    os: Set<BindingModel>,
    o: Option<BindingModel>,
    dup: bool,
)
    ensures
        apply_actions(os, slot_reg_once(s0, o, dup)) == (match o {
            Some(b) => if !(s0.mass_enabled && s0.mass_set().contains(b)) && !dup {
                os.insert(b)
            } else {
                os
            },
            None => os,
        }),
{
    match o {
        Some(b) => {
            if !(s0.mass_enabled && s0.mass_set().contains(b)) && !dup {
                lemma_apply_single(os, ActionModel::Reg(b));
            }
        },
        None => {},
    }
}

/// The net effect and non-redundancy of toggling the Session tier.
#[verifier::rlimit(100)]
#[verifier::spinoff_prover]
proof fn lemma_set_session_effect(s0: &RegistryState, s1: &RegistryState, on: bool)
    requires
        s1.prev_map == s0.prev_map,
        s1.next_map == s0.next_map,
        s1.replay_current == s0.replay_current,
        s1.mass_toggle == s0.mass_toggle,
        s1.mass_play_current == s0.mass_play_current,
        s1.mass_next == s0.mass_next,
        s1.mass_prev == s0.mass_prev,
        s1.session_enabled == on,
        s1.mass_enabled == s0.mass_enabled,
    ensures
        apply_actions(s0.live(), set_session_enabled_actions(s0, on)) == s1.live(),
        actions_strict(s0.live(), set_session_enabled_actions(s0, on)),
{
    let o1 = obind(s0.prev_map);
    let o2 = obind(s0.next_map);
    let o3 = obind(s0.replay_current);
    let os0 = s0.live();
    assert(s1.mass_set() =~= s0.mass_set());
    assert(s1.session_set() =~= s0.session_set());
    if on && !s0.session_enabled {
        let r1 = slot_reg_once(s0, o1, false);
        let r2 = slot_reg_once(s0, o2, o2 == o1);
        let r3 = slot_reg_once(s0, o3, o3 == o1 || o3 == o2);
        let os1 = apply_actions(os0, r1);
        let os2 = apply_actions(os1, r2);
        lemma_slot_reg_step(s0, os0, o1, false);
        lemma_slot_reg_step(s0, os1, o2, o2 == o1);
        lemma_slot_reg_step(s0, os2, o3, o3 == o1 || o3 == o2);
        lemma_apply_concat(os0, r1, r2);
        lemma_apply_concat(os0, r1 + r2, r3);
        assert((r1 + r2) + r3 =~= r1 + (r2 + r3));
        lemma_apply_concat(os1, r2, r3);
        assert(apply_actions(os0, set_session_enabled_actions(s0, on)) =~= s1.live());
        assert(actions_strict(os0, r1)) by {
            match o1 {
                Some(b) => {
                    if !(s0.mass_enabled && s0.mass_set().contains(b)) {
                        lemma_apply_single(os0, ActionModel::Reg(b));
                    }
                },
                None => {},
            }
        }
        assert(actions_strict(os1, r2)) by {
            match o2 {
                Some(b) => {
                    if !(s0.mass_enabled && s0.mass_set().contains(b)) && o2 != o1 {
                        lemma_apply_single(os1, ActionModel::Reg(b));
                    }
                },
                None => {},
            }
        }
        assert(actions_strict(os2, r3)) by {
            match o3 {
                Some(b) => {
                    if !(s0.mass_enabled && s0.mass_set().contains(b)) && o3 != o1 && o3 != o2 {
                        lemma_apply_single(os2, ActionModel::Reg(b));
                    }
                },
                None => {},
            }
        }
        assert(actions_strict(os0, set_session_enabled_actions(s0, on)));
    } else if !on && s0.session_enabled {
        let u1 = unreg_once(s0, o1, false);
        let u2 = unreg_once(s0, o2, o2 == o1);
        let u3 = unreg_once(s0, o3, o3 == o1 || o3 == o2);
        let os1 = apply_actions(os0, u1);
        let os2 = apply_actions(os1, u2);
        lemma_unreg_step(s0, os0, o1, false);
        lemma_unreg_step(s0, os1, o2, o2 == o1);
        lemma_unreg_step(s0, os2, o3, o3 == o1 || o3 == o2);
        lemma_apply_concat(os0, u1, u2);
        lemma_apply_concat(os0, u1 + u2, u3);
        assert((u1 + u2) + u3 =~= u1 + (u2 + u3));
        lemma_apply_concat(os1, u2, u3);
        assert(apply_actions(os0, set_session_enabled_actions(s0, on)) =~= s1.live());
        assert(actions_strict(os0, u1)) by {
            match o1 {
                Some(b) => {
                    if s0.session_live(b) {
                        lemma_apply_single(os0, ActionModel::Unreg(b));
                    }
                },
                None => {},
            }
        }
        assert(actions_strict(os1, u2)) by {
            match o2 {
                Some(b) => {
                    if s0.session_live(b) && o2 != o1 {
                        lemma_apply_single(os1, ActionModel::Unreg(b));
                    }
                },
                None => {},
            }
        }
        assert(actions_strict(os2, u3)) by {
            match o3 {
                Some(b) => {
                    if s0.session_live(b) && o3 != o1 && o3 != o2 {
                        lemma_apply_single(os2, ActionModel::Unreg(b));
                    }
                },
                None => {},
            }
        }
        assert(actions_strict(os0, set_session_enabled_actions(s0, on)));
    } else {
        assert(os0 =~= s1.live());
    }
}

proof fn lemma_reg_step(s0: &RegistryState, os: Set<BindingModel>, b: BindingModel, dup: bool)
    ensures
        apply_actions(os, reg_once(s0, b, dup)) == (if !(s0.mass_enabled
            && s0.mass_set().contains(b)) && !dup {
            os.insert(b)
        } else {
            os
        }),
{
    if !(s0.mass_enabled && s0.mass_set().contains(b)) && !dup {
        lemma_apply_single(os, ActionModel::Reg(b));
    }
}

/// A register action, emitted only under the given condition.
pub open spec fn cond_reg(c: bool, b: BindingModel) -> Seq<ActionModel> {
    if c {
        seq![ActionModel::Reg(b)]
    } else {
        seq![]
    }
}

/// An unregister action, emitted only under the given condition.
pub open spec fn cond_unreg(c: bool, b: BindingModel) -> Seq<ActionModel> {
    if c {
        seq![ActionModel::Unreg(b)]
    } else {
        seq![]
    }
}

proof fn lemma_cond_reg(os: Set<BindingModel>, c: bool, b: BindingModel)
    ensures
        apply_actions(os, cond_reg(c, b)) == (if c {
            os.insert(b)
        } else {
            os
        }),
        actions_strict(os, cond_reg(c, b)) == (c ==> !os.contains(b)),
        unregisters_valid(os, cond_reg(c, b)),
{
    if c {
        lemma_apply_single(os, ActionModel::Reg(b));
        assert(seq![ActionModel::Reg(b)].drop_first() =~= Seq::<ActionModel>::empty());
        assert(unregisters_valid(os.insert(b), Seq::<ActionModel>::empty()));
    }
}

proof fn lemma_cond_unreg(os: Set<BindingModel>, c: bool, b: BindingModel)
    ensures
        apply_actions(os, cond_unreg(c, b)) == (if c {
            os.remove(b)
        } else {
            os
        }),
        actions_strict(os, cond_unreg(c, b)) == (c ==> os.contains(b)),
        unregisters_valid(os, cond_unreg(c, b)) == (c ==> os.contains(b)),
{
    if c {
        lemma_apply_single(os, ActionModel::Unreg(b));
        assert(seq![ActionModel::Unreg(b)].drop_first() =~= Seq::<ActionModel>::empty());
        assert(unregisters_valid(os.remove(b), Seq::<ActionModel>::empty()));
    }
}

/// The set the four MassAction accelerators stand for.
pub open spec fn quad_set(t: BindingModel, pc: BindingModel, n: BindingModel, pv: BindingModel) -> Set<
    BindingModel,
> {
    Set::new(|b: BindingModel| b == t || b == pc || b == n || b == pv)
}

/// Whether a binding held by an old MassAction slot must be unregistered
/// when the tier is (re-)enabled with a new binding set: it is live, not
/// retained by the new set, and not reclaimed by the enabled Session tier
/// (in which case the registration simply changes owner).
pub open spec fn stale_cond(s: &RegistryState, b: BindingModel, nset: Set<BindingModel>) -> bool {
    s.mass_enabled && !nset.contains(b) && !(s.session_enabled && s.session_set().contains(b))
}

/// Whether a live Session binding is evicted because the newly enabled
/// MassAction tier claims the same binding.
pub open spec fn evict_cond(s: &RegistryState, b: BindingModel, nset: Set<BindingModel>) -> bool {
    s.session_live(b) && nset.contains(b)
}

/// Whether a new MassAction binding needs a fresh OS registration: skipped
/// when the old, still-active tier already holds it registered.
pub open spec fn fresh_cond(s: &RegistryState, b: BindingModel) -> bool {
    !(s.mass_enabled && s.mass_set().contains(b))
}

/// The OS actions of enabling the MassAction tier with bindings
/// `t, pc, n, pv` on old state `s`: retire what the old tier held and the
/// new set drops, evict contested Session bindings, then register the new
/// set — each binding at most once and only when not already registered.
pub open spec fn mass_enable_actions(
    s: &RegistryState,
    t: BindingModel,
    pc: BindingModel,
    n: BindingModel,
    pv: BindingModel,
) -> Seq<ActionModel> {
    mass_enable_unregs(s, quad_set(t, pc, n, pv)) + mass_enable_regs(s, t, pc, n, pv)
}

pub open spec fn mass_off_unregs(s: &RegistryState) -> Seq<ActionModel> {
    let m1 = obind(s.mass_toggle);
    let m2 = obind(s.mass_play_current);
    let m3 = obind(s.mass_next);
    let m4 = obind(s.mass_prev);
    cond_unreg(m1 is Some, m1->0) + cond_unreg(m2 is Some && m2 != m1, m2->0) + cond_unreg(
        m3 is Some && m3 != m1 && m3 != m2,
        m3->0,
    ) + cond_unreg(m4 is Some && m4 != m1 && m4 != m2 && m4 != m3, m4->0)
}

/// The Session restoration after disabling the MassAction tier: all three
/// bound Session bindings are re-registered, as the tier first registered
/// them — also ones that were never evicted, a deliberate, harmless repeat.
pub open spec fn mass_restore_regs(s: &RegistryState) -> Seq<ActionModel> {
    let o1 = obind(s.prev_map);
    let o2 = obind(s.next_map);
    let o3 = obind(s.replay_current);
    cond_reg(o1 is Some, o1->0) + cond_reg(o2 is Some && o2 != o1, o2->0) + cond_reg(
        o3 is Some && o3 != o1 && o3 != o2,
        o3->0,
    )
}

/// The OS actions of disabling the MassAction tier on old state `s`: on an
/// actual transition, unregister what the old tier held, then — when the
/// Session tier is active — restore its bindings.  With the tier already
/// off, nothing is issued, so disabling twice never repeats an unregister.
pub open spec fn mass_disable_actions(s: &RegistryState) -> Seq<ActionModel> {
    if s.mass_enabled {
        mass_off_unregs(s) + (if s.session_enabled {
            mass_restore_regs(s)
        } else {
            Seq::<ActionModel>::empty()
        })
    } else {
        Seq::<ActionModel>::empty()
    }
}

/// The bindings removed by the unregister half of an enable: stale old
/// MassAction registrations the new set drops, and Session bindings the new
/// set claims.
pub open spec fn enable_removed(
    s: &RegistryState,
    b: BindingModel,
    nset: Set<BindingModel>,
) -> bool {
    (s.mass_set().contains(b) && stale_cond(s, b, nset)) || (s.session_set().contains(b)
        && evict_cond(s, b, nset))
}

/// The stale-retirement part of enabling the MassAction tier.
pub open spec fn mass_stale_unregs(s: &RegistryState, nset: Set<BindingModel>) -> Seq<
    ActionModel,
> {
    let m1 = obind(s.mass_toggle);
    let m2 = obind(s.mass_play_current);
    let m3 = obind(s.mass_next);
    let m4 = obind(s.mass_prev);
    cond_unreg(m1 matches Some(b) && stale_cond(s, b, nset), m1->0) + cond_unreg(
        m2 matches Some(b) && stale_cond(s, b, nset) && m2 != m1,
        m2->0,
    ) + cond_unreg(
        m3 matches Some(b) && stale_cond(s, b, nset) && m3 != m1 && m3 != m2,
        m3->0,
    ) + cond_unreg(
        m4 matches Some(b) && stale_cond(s, b, nset) && m4 != m1 && m4 != m2 && m4 != m3,
        m4->0,
    )
}

/// The Session-eviction part of enabling the MassAction tier.
pub open spec fn mass_evict_unregs(s: &RegistryState, nset: Set<BindingModel>) -> Seq<
    ActionModel,
> {
    let o1 = obind(s.prev_map);
    let o2 = obind(s.next_map);
    let o3 = obind(s.replay_current);
    cond_unreg(o1 matches Some(b) && evict_cond(s, b, nset), o1->0) + cond_unreg(
        o2 matches Some(b) && evict_cond(s, b, nset) && o2 != o1,
        o2->0,
    ) + cond_unreg(o3 matches Some(b) && evict_cond(s, b, nset) && o3 != o1 && o3 != o2, o3->0)
}

/// The unregister half of enabling the MassAction tier.
pub open spec fn mass_enable_unregs(s: &RegistryState, nset: Set<BindingModel>) -> Seq<
    ActionModel,
> {
    mass_stale_unregs(s, nset) + mass_evict_unregs(s, nset)
}

/// The register half of enabling the MassAction tier.
pub open spec fn mass_enable_regs(
    s: &RegistryState,
    t: BindingModel,
    pc: BindingModel,
    n: BindingModel,
    pv: BindingModel,
) -> Seq<ActionModel> {
    cond_reg(fresh_cond(s, t), t) + cond_reg(fresh_cond(s, pc) && pc != t, pc) + cond_reg(
        fresh_cond(s, n) && n != t && n != pc,
        n,
    ) + cond_reg(fresh_cond(s, pv) && pv != t && pv != pc && pv != n, pv)
}

#[verifier::rlimit(100)]
#[verifier::spinoff_prover]
proof fn lemma_mass_stale_phase(s0: &RegistryState, nset: Set<BindingModel>)
    ensures
        apply_actions(s0.live(), mass_stale_unregs(s0, nset)) =~= Set::new(
            |b: BindingModel|
                s0.live().contains(b) && !(s0.mass_set().contains(b) && stale_cond(s0, b, nset)),
        ),
        actions_strict(s0.live(), mass_stale_unregs(s0, nset)),
{
    let m1 = obind(s0.mass_toggle);
    let m2 = obind(s0.mass_play_current);
    let m3 = obind(s0.mass_next);
    let m4 = obind(s0.mass_prev);
    let a1 = cond_unreg(m1 matches Some(b) && stale_cond(s0, b, nset), m1->0);
    let a2 = cond_unreg(m2 matches Some(b) && stale_cond(s0, b, nset) && m2 != m1, m2->0);
    let a3 = cond_unreg(
        m3 matches Some(b) && stale_cond(s0, b, nset) && m3 != m1 && m3 != m2,
        m3->0,
    );
    let a4 = cond_unreg(
        m4 matches Some(b) && stale_cond(s0, b, nset) && m4 != m1 && m4 != m2 && m4 != m3,
        m4->0,
    );
    let os0 = s0.live();
    let s1_ = apply_actions(os0, a1);
    let s2_ = apply_actions(s1_, a2);
    let s3_ = apply_actions(s2_, a3);
    let s4_ = apply_actions(s3_, a4);
    lemma_cond_unreg(os0, m1 matches Some(b) && stale_cond(s0, b, nset), m1->0);
    lemma_cond_unreg(s1_, m2 matches Some(b) && stale_cond(s0, b, nset) && m2 != m1, m2->0);
    lemma_cond_unreg(
        s2_,
        m3 matches Some(b) && stale_cond(s0, b, nset) && m3 != m1 && m3 != m2,
        m3->0,
    );
    lemma_cond_unreg(
        s3_,
        m4 matches Some(b) && stale_cond(s0, b, nset) && m4 != m1 && m4 != m2 && m4 != m3,
        m4->0,
    );
    lemma_apply_concat(os0, a1, a2);
    lemma_apply_concat(os0, a1 + a2, a3);
    lemma_apply_concat(os0, a1 + a2 + a3, a4);
    assert(mass_stale_unregs(s0, nset) == a1 + a2 + a3 + a4);
    assert(apply_actions(os0, mass_stale_unregs(s0, nset)) == s4_);
    assert(s4_ =~= Set::new(
        |b: BindingModel|
            s0.live().contains(b) && !(s0.mass_set().contains(b) && stale_cond(s0, b, nset)),
    ));
    assert(actions_strict(os0, mass_stale_unregs(s0, nset)));
}

#[verifier::rlimit(100)]
#[verifier::spinoff_prover]
proof fn lemma_mass_evict_phase(s0: &RegistryState, os: Set<BindingModel>, nset: Set<BindingModel>)
    requires
        forall|b: BindingModel|
            s0.session_set().contains(b) && evict_cond(s0, b, nset) ==> #[trigger] os.contains(b),
    ensures
        apply_actions(os, mass_evict_unregs(s0, nset)) =~= Set::new(
            |b: BindingModel|
                os.contains(b) && !(s0.session_set().contains(b) && evict_cond(s0, b, nset)),
        ),
        actions_strict(os, mass_evict_unregs(s0, nset)),
{
    let o1 = obind(s0.prev_map);
    let o2 = obind(s0.next_map);
    let o3 = obind(s0.replay_current);
    let a5 = cond_unreg(o1 matches Some(b) && evict_cond(s0, b, nset), o1->0);
    let a6 = cond_unreg(o2 matches Some(b) && evict_cond(s0, b, nset) && o2 != o1, o2->0);
    let a7 = cond_unreg(
        o3 matches Some(b) && evict_cond(s0, b, nset) && o3 != o1 && o3 != o2,
        o3->0,
    );
    let s1_ = apply_actions(os, a5);
    let s2_ = apply_actions(s1_, a6);
    let s3_ = apply_actions(s2_, a7);
    lemma_cond_unreg(os, o1 matches Some(b) && evict_cond(s0, b, nset), o1->0);
    lemma_cond_unreg(s1_, o2 matches Some(b) && evict_cond(s0, b, nset) && o2 != o1, o2->0);
    lemma_cond_unreg(
        s2_,
        o3 matches Some(b) && evict_cond(s0, b, nset) && o3 != o1 && o3 != o2,
        o3->0,
    );
    lemma_apply_concat(os, a5, a6);
    lemma_apply_concat(os, a5 + a6, a7);
    assert(mass_evict_unregs(s0, nset) == a5 + a6 + a7);
    assert(apply_actions(os, mass_evict_unregs(s0, nset)) == s3_);
    assert(s3_ =~= Set::new(
        |b: BindingModel|
            os.contains(b) && !(s0.session_set().contains(b) && evict_cond(s0, b, nset)),
    ));
    assert(actions_strict(os, mass_evict_unregs(s0, nset)));
}

#[verifier::rlimit(100)]
#[verifier::spinoff_prover]
proof fn lemma_mass_enable_unreg_phase(s0: &RegistryState, nset: Set<BindingModel>)
    ensures
        apply_actions(s0.live(), mass_enable_unregs(s0, nset)) =~= Set::new(
            |b: BindingModel| s0.live().contains(b) && !enable_removed(s0, b, nset),
        ),
        actions_strict(s0.live(), mass_enable_unregs(s0, nset)),
{
    let os0 = s0.live();
    lemma_mass_stale_phase(s0, nset);
    let mid = apply_actions(os0, mass_stale_unregs(s0, nset));
    assert forall|b: BindingModel|
        s0.session_set().contains(b) && evict_cond(s0, b, nset) implies #[trigger] mid.contains(
        b,
    ) by {
        assert(s0.session_live(b));
        assert(os0.contains(b));
        assert(!(s0.mass_enabled && s0.mass_set().contains(b)));
    }
    lemma_mass_evict_phase(s0, mid, nset);
    lemma_apply_concat(os0, mass_stale_unregs(s0, nset), mass_evict_unregs(s0, nset));
    assert(apply_actions(os0, mass_enable_unregs(s0, nset)) =~= Set::new(
        |b: BindingModel| s0.live().contains(b) && !enable_removed(s0, b, nset),
    ));
}

#[verifier::rlimit(100)]
#[verifier::spinoff_prover]
proof fn lemma_mass_enable_reg_phase(
    s0: &RegistryState,
    os: Set<BindingModel>,
    t: BindingModel,
    pc: BindingModel,
    n: BindingModel,
    pv: BindingModel,
)
    requires
        forall|b: BindingModel|
            #[trigger] quad_set(t, pc, n, pv).contains(b) && fresh_cond(s0, b) ==> !os.contains(
                b,
            ),
    ensures
        apply_actions(os, mass_enable_regs(s0, t, pc, n, pv)) =~= Set::new(
            |b: BindingModel|
                os.contains(b) || (quad_set(t, pc, n, pv).contains(b) && fresh_cond(s0, b)),
        ),
        actions_strict(os, mass_enable_regs(s0, t, pc, n, pv)),
{
    let nset = quad_set(t, pc, n, pv);
    let a8 = cond_reg(fresh_cond(s0, t), t);
    let a9 = cond_reg(fresh_cond(s0, pc) && pc != t, pc);
    let a10 = cond_reg(fresh_cond(s0, n) && n != t && n != pc, n);
    let a11 = cond_reg(fresh_cond(s0, pv) && pv != t && pv != pc && pv != n, pv);
    let s8_ = apply_actions(os, a8);
    let s9_ = apply_actions(s8_, a9);
    let s10_ = apply_actions(s9_, a10);
    let s11_ = apply_actions(s10_, a11);
    lemma_cond_reg(os, fresh_cond(s0, t), t);
    lemma_cond_reg(s8_, fresh_cond(s0, pc) && pc != t, pc);
    lemma_cond_reg(s9_, fresh_cond(s0, n) && n != t && n != pc, n);
    lemma_cond_reg(s10_, fresh_cond(s0, pv) && pv != t && pv != pc && pv != n, pv);
    lemma_apply_concat(os, a8, a9);
    lemma_apply_concat(os, a8 + a9, a10);
    lemma_apply_concat(os, a8 + a9 + a10, a11);
    assert(mass_enable_regs(s0, t, pc, n, pv) == a8 + a9 + a10 + a11);
    assert(apply_actions(os, mass_enable_regs(s0, t, pc, n, pv)) == s11_);
    assert(quad_set(t, pc, n, pv).contains(t));
    assert(quad_set(t, pc, n, pv).contains(pc));
    assert(quad_set(t, pc, n, pv).contains(n));
    assert(quad_set(t, pc, n, pv).contains(pv));
    assert(s11_ =~= Set::new(
        |b: BindingModel| os.contains(b) || (nset.contains(b) && fresh_cond(s0, b)),
    ));
    assert(actions_strict(os, mass_enable_regs(s0, t, pc, n, pv)));
}

/// The net effect and non-redundancy of enabling the MassAction tier.
#[verifier::rlimit(100)]
#[verifier::spinoff_prover]
proof fn lemma_mass_enable_effect(
    s0: &RegistryState,
    s1: &RegistryState,
    t: BindingModel,
    pc: BindingModel,
    n: BindingModel,
    pv: BindingModel,
)
    requires
        obind(s1.mass_toggle) == Some(t),
        obind(s1.mass_play_current) == Some(pc),
        obind(s1.mass_next) == Some(n),
        obind(s1.mass_prev) == Some(pv),
        s1.prev_map == s0.prev_map,
        s1.next_map == s0.next_map,
        s1.replay_current == s0.replay_current,
        s1.session_enabled == s0.session_enabled,
        s1.mass_enabled == true,
    ensures
        apply_actions(s0.live(), mass_enable_actions(s0, t, pc, n, pv)) == s1.live(),
        actions_strict(s0.live(), mass_enable_actions(s0, t, pc, n, pv)),
{
    let nset = quad_set(t, pc, n, pv);
    let os0 = s0.live();
    let unregs = mass_enable_unregs(s0, nset);
    let regs = mass_enable_regs(s0, t, pc, n, pv);
    assert(mass_enable_actions(s0, t, pc, n, pv) == unregs + regs);
    lemma_mass_enable_unreg_phase(s0, nset);
    let mid = apply_actions(os0, unregs);
    assert forall|b: BindingModel|
        #[trigger] quad_set(t, pc, n, pv).contains(b) && fresh_cond(s0, b) implies !mid.contains(
        b,
    ) by {
        if s0.session_live(b) {
            assert(enable_removed(s0, b, nset));
        }
    }
    lemma_mass_enable_reg_phase(s0, mid, t, pc, n, pv);
    lemma_apply_concat(os0, unregs, regs);
    assert(s1.mass_set() =~= nset);
    assert(s1.session_set() =~= s0.session_set());
    assert(apply_actions(os0, mass_enable_actions(s0, t, pc, n, pv)) =~= s1.live());
}

/// The net effect of disabling the MassAction tier, and the validity of its
/// unregisters: each one names a binding the OS holds at that point.
#[verifier::rlimit(100)]
#[verifier::spinoff_prover]
proof fn lemma_mass_disable_effect(s0: &RegistryState, s1: &RegistryState)
    requires
        s1.prev_map == s0.prev_map,
        s1.next_map == s0.next_map,
        s1.replay_current == s0.replay_current,
        s1.session_enabled == s0.session_enabled,
        s1.mass_enabled == false,
        s1.session_set() == s0.session_set(),
    ensures
        apply_actions(s0.live(), mass_disable_actions(s0)) == s1.live(),
        unregisters_valid(s0.live(), mass_disable_actions(s0)),
{
    let m1 = obind(s0.mass_toggle);
    let m2 = obind(s0.mass_play_current);
    let m3 = obind(s0.mass_next);
    let m4 = obind(s0.mass_prev);
    let o1 = obind(s0.prev_map);
    let o2 = obind(s0.next_map);
    let o3 = obind(s0.replay_current);
    let os0 = s0.live();
    if s0.mass_enabled {
        let a1 = cond_unreg(m1 is Some, m1->0);
        let a2 = cond_unreg(m2 is Some && m2 != m1, m2->0);
        let a3 = cond_unreg(m3 is Some && m3 != m1 && m3 != m2, m3->0);
        let a4 = cond_unreg(m4 is Some && m4 != m1 && m4 != m2 && m4 != m3, m4->0);
        let regs = if s0.session_enabled {
            cond_reg(o1 is Some, o1->0) + cond_reg(o2 is Some && o2 != o1, o2->0) + cond_reg(
                o3 is Some && o3 != o1 && o3 != o2,
                o3->0,
            )
        } else {
            Seq::<ActionModel>::empty()
        };
        let s1_ = apply_actions(os0, a1);
        let s2_ = apply_actions(s1_, a2);
        let s3_ = apply_actions(s2_, a3);
        let s4_ = apply_actions(s3_, a4);
        lemma_cond_unreg(os0, m1 is Some, m1->0);
        lemma_cond_unreg(s1_, m2 is Some && m2 != m1, m2->0);
        lemma_cond_unreg(s2_, m3 is Some && m3 != m1 && m3 != m2, m3->0);
        lemma_cond_unreg(s3_, m4 is Some && m4 != m1 && m4 != m2 && m4 != m3, m4->0);
        lemma_apply_concat(os0, a1, a2);
        lemma_apply_concat(os0, a1 + a2, a3);
        lemma_apply_concat(os0, a1 + a2 + a3, a4);
        lemma_apply_concat(os0, a1 + a2 + a3 + a4, regs);
        assert(mass_disable_actions(s0) =~= a1 + a2 + a3 + a4 + regs);
        assert(mass_disable_actions(s0) == a1 + a2 + a3 + a4 + regs);
        if s0.session_enabled {
            let r1 = cond_reg(o1 is Some, o1->0);
            let r2 = cond_reg(o2 is Some && o2 != o1, o2->0);
            let r3 = cond_reg(o3 is Some && o3 != o1 && o3 != o2, o3->0);
            let s5_ = apply_actions(s4_, r1);
            let s6_ = apply_actions(s5_, r2);
            let s7_ = apply_actions(s6_, r3);
            lemma_cond_reg(s4_, o1 is Some, o1->0);
            lemma_cond_reg(s5_, o2 is Some && o2 != o1, o2->0);
            lemma_cond_reg(s6_, o3 is Some && o3 != o1 && o3 != o2, o3->0);
            lemma_apply_concat(s4_, r1, r2);
            lemma_apply_concat(s4_, r1 + r2, r3);
            assert(regs =~= r1 + r2 + r3);
            assert(regs == r1 + r2 + r3);
            assert(apply_actions(s4_, regs) == s7_);
            assert(s7_ =~= s1.live());
        } else {
            assert(apply_actions(s4_, regs) == s4_);
            assert(s4_ =~= s1.live());
        }
        assert(unregisters_valid(os0, mass_disable_actions(s0)));
    } else {
        assert(mass_disable_actions(s0) =~= Seq::<ActionModel>::empty());
        assert(os0 =~= s1.live());
    }
}

/// Law: re-registering the Session hotkeys replaces the old set outright.
/// With `s2` the state after a successful re-registration on `s1` storing
/// `p`, `n`, `rb`: performing the returned actions on an OS that held
/// exactly `s1`'s live bindings leaves it holding exactly `s2`'s, with no
/// action redundant; each stored binding is live unless the active
/// MassAction tier owns it; and a binding `x` that the new set does not
/// reuse — whatever set it belonged to before — retains no OS
/// registration, unless the active MassAction tier holds it for itself.
pub proof fn lemma_session_swap_replaces_bindings(
    s1: &RegistryState,
    s2: &RegistryState,
    p: BindingModel,
    n: BindingModel,
    rb: BindingModel,
    x: BindingModel,
)
    requires
        obind(s2.prev_map) == Some(p),
        obind(s2.next_map) == Some(n),
        obind(s2.replay_current) == Some(rb),
        s2.mass_toggle == s1.mass_toggle,
        s2.mass_play_current == s1.mass_play_current,
        s2.mass_next == s1.mass_next,
        s2.mass_prev == s1.mass_prev,
        s2.session_enabled == s1.session_enabled,
        s2.mass_enabled == s1.mass_enabled,
        x != p && x != n && x != rb,
        !(s2.mass_enabled && s2.mass_set().contains(x)),
    ensures
        apply_actions(s1.live(), register_session_actions(s1, p, n, rb)) == s2.live(),
        actions_strict(s1.live(), register_session_actions(s1, p, n, rb)),
        !s2.live().contains(x),
        s2.session_enabled && !(s2.mass_enabled && s2.mass_set().contains(p))
            ==> s2.live().contains(p),
        s2.session_enabled && !(s2.mass_enabled && s2.mass_set().contains(n))
            ==> s2.live().contains(n),
        s2.session_enabled && !(s2.mass_enabled && s2.mass_set().contains(rb))
            ==> s2.live().contains(rb),
{
    lemma_register_session_effect(s1, s2, p, n, rb);
}

/// Law: while the MassAction tier is active it owns a contested binding,
/// and deactivating it hands the binding back to the Session tier.  With
/// `b` a live Session binding of `s0`, `s1` the state after enabling the
/// MassAction tier with four bindings among which `b` appears, and `s2`
/// the state after disabling it again: the enable keeps the OS in sync
/// without ever double-registering, so exactly one registration for `b`
/// exists, owned by MassAction; and the disable restores the Session
/// tier's registration of `b`.
pub proof fn lemma_mass_priority_and_restore(
    s0: &RegistryState,
    s1: &RegistryState,
    s2: &RegistryState,
    t: BindingModel,
    pc: BindingModel,
    n: BindingModel,
    pv: BindingModel,
    b: BindingModel,
)
    requires
        s0.session_live(b),
        quad_set(t, pc, n, pv).contains(b),
        obind(s1.mass_toggle) == Some(t),
        obind(s1.mass_play_current) == Some(pc),
        obind(s1.mass_next) == Some(n),
        obind(s1.mass_prev) == Some(pv),
        s1.prev_map == s0.prev_map,
        s1.next_map == s0.next_map,
        s1.replay_current == s0.replay_current,
        s1.session_enabled == s0.session_enabled,
        s1.mass_enabled == true,
        s2.prev_map == s1.prev_map,
        s2.next_map == s1.next_map,
        s2.replay_current == s1.replay_current,
        s2.session_enabled == s1.session_enabled,
        s2.mass_enabled == false,
        s2.session_set() == s1.session_set(),
    ensures
        apply_actions(s0.live(), mass_enable_actions(s0, t, pc, n, pv)) == s1.live(),
        actions_strict(s0.live(), mass_enable_actions(s0, t, pc, n, pv)),
        s1.live().contains(b),
        s1.mass_set().contains(b),
        !s1.session_live(b),
        apply_actions(s1.live(), mass_disable_actions(s1)) == s2.live(),
        unregisters_valid(s1.live(), mass_disable_actions(s1)),
        s2.live().contains(b),
        s2.session_live(b),
{
    lemma_mass_enable_effect(s0, s1, t, pc, n, pv);
    lemma_mass_disable_effect(s1, s2);
    assert(s1.mass_set() =~= quad_set(t, pc, n, pv));
    assert(s1.session_set() =~= s0.session_set());
    assert(s1.mass_set().contains(b));
    assert(s2.session_set().contains(b));
}

/// Law: disabling is idempotent at the platform boundary.  A tier that is
/// already off issues no OS action when disabled again — in particular no
/// repeated unregister — and a registry whose slots are all unbound has
/// nothing to tear down.
pub proof fn lemma_disable_is_idempotent(s: &RegistryState)
    ensures
        !s.session_enabled ==> set_session_enabled_actions(s, false) =~= Seq::<
            ActionModel,
        >::empty(),
        !s.mass_enabled ==> mass_disable_actions(s) =~= Seq::<ActionModel>::empty(),
        s.prev_map is None && s.next_map is None && s.replay_current is None && !s.mass_enabled
            ==> teardown_actions(s) =~= Seq::<ActionModel>::empty(),
{
}

/// The logical action a shortcut press resolves to.
#[derive(Clone, Copy, PartialEq, Eq, Structural, Debug)]
pub enum HotkeyAction {
    MassToggle,
    MassPlayCurrent,
    MassPrev,
    MassNext,
    NavPlay { delta: i32 },
    ReplayCurrent,
}

/// The fixed-order lookup of a pressed binding: the active MassAction
/// tier's slots take priority over the active Session tier's.
pub open spec fn dispatch_spec(s: &RegistryState, b: BindingModel) -> Option<HotkeyAction> {
    if s.mass_enabled && obind(s.mass_toggle) == Some(b) {
        Some(HotkeyAction::MassToggle)
    } else if s.mass_enabled && obind(s.mass_play_current) == Some(b) {
        Some(HotkeyAction::MassPlayCurrent)
    } else if s.mass_enabled && obind(s.mass_prev) == Some(b) {
        Some(HotkeyAction::MassPrev)
    } else if s.mass_enabled && obind(s.mass_next) == Some(b) {
        Some(HotkeyAction::MassNext)
    } else if s.session_enabled && obind(s.prev_map) == Some(b) {
        Some(HotkeyAction::NavPlay { delta: -1i32 })
    } else if s.session_enabled && obind(s.next_map) == Some(b) {
        Some(HotkeyAction::NavPlay { delta: 1i32 })
    } else if s.session_enabled && obind(s.replay_current) == Some(b) {
        Some(HotkeyAction::ReplayCurrent)
    } else {
        None
    }
}

/// The teardown unregisters for the Session tier's live bindings.
pub open spec fn teardown_session_unregs(s: &RegistryState) -> Seq<ActionModel> {
    let o1 = obind(s.prev_map);
    let o2 = obind(s.next_map);
    let o3 = obind(s.replay_current);
    cond_unreg(o1 matches Some(b) && s.session_live(b), o1->0) + cond_unreg(
        o2 matches Some(b) && s.session_live(b) && o2 != o1,
        o2->0,
    ) + cond_unreg(o3 matches Some(b) && s.session_live(b) && o3 != o1 && o3 != o2, o3->0)
}

/// The OS actions of a teardown: unregister every live binding of either
/// tier, each exactly once.
pub open spec fn teardown_actions(s: &RegistryState) -> Seq<ActionModel> {
    teardown_session_unregs(s) + (if s.mass_enabled {
        mass_off_unregs(s)
    } else {
        Seq::<ActionModel>::empty()
    })
}

#[verifier::rlimit(100)]
#[verifier::spinoff_prover]
proof fn lemma_teardown_session_phase(s0: &RegistryState)
    ensures
        apply_actions(s0.live(), teardown_session_unregs(s0)) =~= Set::new(
            |b: BindingModel| s0.live().contains(b) && !s0.session_live(b),
        ),
        actions_strict(s0.live(), teardown_session_unregs(s0)),
{
    let o1 = obind(s0.prev_map);
    let o2 = obind(s0.next_map);
    let o3 = obind(s0.replay_current);
    let a1 = cond_unreg(o1 matches Some(b) && s0.session_live(b), o1->0);
    let a2 = cond_unreg(o2 matches Some(b) && s0.session_live(b) && o2 != o1, o2->0);
    let a3 = cond_unreg(o3 matches Some(b) && s0.session_live(b) && o3 != o1 && o3 != o2, o3->0);
    let os0 = s0.live();
    let s1_ = apply_actions(os0, a1);
    let s2_ = apply_actions(s1_, a2);
    let s3_ = apply_actions(s2_, a3);
    lemma_cond_unreg(os0, o1 matches Some(b) && s0.session_live(b), o1->0);
    lemma_cond_unreg(s1_, o2 matches Some(b) && s0.session_live(b) && o2 != o1, o2->0);
    lemma_cond_unreg(s2_, o3 matches Some(b) && s0.session_live(b) && o3 != o1 && o3 != o2, o3->0);
    lemma_apply_concat(os0, a1, a2);
    lemma_apply_concat(os0, a1 + a2, a3);
    assert(teardown_session_unregs(s0) == a1 + a2 + a3);
    assert(apply_actions(os0, teardown_session_unregs(s0)) == s3_);
    assert(s3_ =~= Set::new(|b: BindingModel| s0.live().contains(b) && !s0.session_live(b)));
    assert(actions_strict(os0, teardown_session_unregs(s0)));
}

#[verifier::rlimit(100)]
#[verifier::spinoff_prover]
proof fn lemma_mass_off_phase(s0: &RegistryState, os: Set<BindingModel>)
    requires
        s0.mass_enabled,
        forall|b: BindingModel| s0.mass_set().contains(b) ==> #[trigger] os.contains(b),
    ensures
        apply_actions(os, mass_off_unregs(s0)) =~= Set::new(
            |b: BindingModel| os.contains(b) && !s0.mass_set().contains(b),
        ),
        actions_strict(os, mass_off_unregs(s0)),
{
    let m1 = obind(s0.mass_toggle);
    let m2 = obind(s0.mass_play_current);
    let m3 = obind(s0.mass_next);
    let m4 = obind(s0.mass_prev);
    let a1 = cond_unreg(m1 is Some, m1->0);
    let a2 = cond_unreg(m2 is Some && m2 != m1, m2->0);
    let a3 = cond_unreg(m3 is Some && m3 != m1 && m3 != m2, m3->0);
    let a4 = cond_unreg(m4 is Some && m4 != m1 && m4 != m2 && m4 != m3, m4->0);
    let s1_ = apply_actions(os, a1);
    let s2_ = apply_actions(s1_, a2);
    let s3_ = apply_actions(s2_, a3);
    let s4_ = apply_actions(s3_, a4);
    lemma_cond_unreg(os, m1 is Some, m1->0);
    lemma_cond_unreg(s1_, m2 is Some && m2 != m1, m2->0);
    lemma_cond_unreg(s2_, m3 is Some && m3 != m1 && m3 != m2, m3->0);
    lemma_cond_unreg(s3_, m4 is Some && m4 != m1 && m4 != m2 && m4 != m3, m4->0);
    lemma_apply_concat(os, a1, a2);
    lemma_apply_concat(os, a1 + a2, a3);
    lemma_apply_concat(os, a1 + a2 + a3, a4);
    assert(mass_off_unregs(s0) == a1 + a2 + a3 + a4);
    assert(apply_actions(os, mass_off_unregs(s0)) == s4_);
    assert(s4_ =~= Set::new(|b: BindingModel| os.contains(b) && !s0.mass_set().contains(b)));
    assert(actions_strict(os, mass_off_unregs(s0)));
}

/// The net effect and non-redundancy of a teardown: everything live is
/// unregistered, exactly once.
#[verifier::rlimit(100)]
#[verifier::spinoff_prover]
proof fn lemma_teardown_effect(s0: &RegistryState, s1: &RegistryState)
    requires
        s1.prev_map is None && s1.next_map is None && s1.replay_current is None,
        s1.mass_toggle is None && s1.mass_play_current is None && s1.mass_next is None
            && s1.mass_prev is None,
        s1.session_enabled == s0.session_enabled,
        s1.mass_enabled == s0.mass_enabled,
    ensures
        apply_actions(s0.live(), teardown_actions(s0)) == s1.live(),
        actions_strict(s0.live(), teardown_actions(s0)),
        s1.live() =~= Set::<BindingModel>::empty(),
{
    let os0 = s0.live();
    lemma_teardown_session_phase(s0);
    let mid = apply_actions(os0, teardown_session_unregs(s0));
    if s0.mass_enabled {
        assert forall|b: BindingModel| s0.mass_set().contains(b) implies #[trigger] mid.contains(
            b,
        ) by {
            assert(os0.contains(b));
            assert(!s0.session_live(b));
        }
        lemma_mass_off_phase(s0, mid);
    }
    lemma_apply_concat(
        os0,
        teardown_session_unregs(s0),
        if s0.mass_enabled {
            mass_off_unregs(s0)
        } else {
            Seq::<ActionModel>::empty()
        },
    );
    assert(apply_actions(os0, teardown_actions(s0)) =~= s1.live());
    assert(s1.live() =~= Set::<BindingModel>::empty());
}

} // verus!
