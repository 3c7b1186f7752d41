//! Render passes: how a frame's command list is split where a complex blend has
//! to leave the current pass.
use crate::blend::{classify, BlendType, ComplexBlend, TrivialBlend};
use crate::commands::{
    contains_complex_blend, holds_complex_blend, is_complex_blend, Command, CommandList,
};
use crate::geometry::Color;
use crate::render::{
    check_command_masks, check_masks, command_masks_after, command_masks_ok, command_transforms, execute_commands,
    execute_single_command, masks_after, masks_ok, run_list, run_list_state,
    transform_count, BindGroup, ExecState, RenderContext, RenderOp, RunState,
};
use crate::vertex::MaskState;
use vstd::prelude::*;

verus! {

/// What an attachment holds when a pass begins.
#[derive(Clone, Copy, PartialEq, Eq, Structural, Debug)]
pub enum LoadOp {
    /// One color everywhere.
    Clear(Color),
    /// What the passes before it left.
    Load,
}

/// One step of drawing a frame.
#[derive(Debug)]
pub enum Pass {
    /// A pass on the target with the depth/stencil buffer attached, which is
    /// cleared first (`clear_stencil`) or kept.
    Render { load: LoadOp, clear_stencil: bool, ops: Vec<RenderOp> },
    /// A pass on the target that only clears it.
    Clear(Color),
    /// The operations draw on a transparent texture of its own with its own
    /// depth/stencil buffer, both cleared. The target is copied to the blend
    /// buffer, and the two are composited onto the target.
    ComplexBlend { blend: ComplexBlend, ops: Vec<RenderOp> },
}

/// One step of drawing a frame.
pub ghost enum PassView {
    Render { load: LoadOp, clear_stencil: bool, ops: Seq<RenderOp> },
    Clear(Color),
    ComplexBlend { blend: ComplexBlend, ops: Seq<RenderOp> },
}

impl View for Pass {
    type V = PassView;

    open spec fn view(&self) -> PassView {
        match self {
            Pass::Render { load, clear_stencil, ops } => PassView::Render {
                load: *load,
                clear_stencil: *clear_stencil,
                ops: ops@,
            },
            Pass::Clear(color) => PassView::Clear(*color),
            Pass::ComplexBlend { blend, ops } => PassView::ComplexBlend { blend: *blend, ops: ops@ },
        }
    }
}

/// The views of a sequence of passes.
pub open spec fn pass_views(passes: Seq<Pass>) -> Seq<PassView> {
    passes.map_values(|p: Pass| p@)
}

/// The color load operation of a first pass.
pub open spec fn first_load(clear: Option<Color>) -> LoadOp {
    match clear {
        Some(color) => LoadOp::Clear(color),
        None => LoadOp::Load,
    }
}

/// The operations of a pass: the globals are bound before anything else.
pub open spec fn pass_ops(ops: Seq<RenderOp>) -> Seq<RenderOp> {
    seq![RenderOp::SetBindGroup { group: 0, bind_group: BindGroup::Globals }] + ops
}

/// Where the next complex blend of a list stands, from a position on; the end of
/// the list if there is none.
pub open spec fn next_complex(cmds: Seq<Command>, from: int) -> int
    decreases cmds.len() - from,
{
    if from >= cmds.len() {
        cmds.len() as int
    } else if is_complex_blend(cmds[from]) {
        from
    } else {
        next_complex(cmds, from + 1)
    }
}

/// Whether a complex blend stands directly in a list.
pub open spec fn has_toplevel_complex(cmds: Seq<Command>) -> bool {
    exists|i: int| 0 <= i < cmds.len() && is_complex_blend(#[trigger] cmds[i])
}

/// The state in which a complex blend's content is drawn: it sees no masks.
pub open spec fn blend_content_state(st: RunState) -> RunState {
    RunState { index: st.index, mask_state: MaskState::NoMask, num_masks: 0 }
}

/// The pass for a complex blend, and where execution stands after it: its content
/// uses up transforms but leaves the masks alone.
pub open spec fn complex_blend_pass(ctx: RenderContext, cmd: Command, st: RunState) -> (
    PassView,
    RunState,
) {
    match cmd {
        Command::Blend(sub, mode) => {
            let run = run_list(ctx, sub.commands@, blend_content_state(st), None);
            (
                PassView::ComplexBlend { blend: classify(mode)->Complex_0, ops: pass_ops(run.0) },
                RunState { index: run.1.index, ..st },
            )
        },
        _ => arbitrary(),
    }
}

/// The passes for a list from a position on, broken up at each complex blend.
/// Only the first of them clears the target.
pub open spec fn passes_from(
    ctx: RenderContext,
    cmds: Seq<Command>,
    from: int,
    st: RunState,
    blend: Option<TrivialBlend>,
    clear: Option<Color>,
) -> (Seq<PassView>, RunState)
    decreases cmds.len() - from,
{
    let at = next_complex(cmds, from);
    if from >= cmds.len() || at < from || at > cmds.len() {
        (seq![], st)
    } else {
        let run = run_list(ctx, cmds.subrange(from, at), st, blend);
        let batch = if at > from {
            seq![
                PassView::Render {
                    load: first_load(clear),
                    clear_stencil: false,
                    ops: pass_ops(run.0),
                },
            ]
        } else {
            seq![]
        };
        if at == cmds.len() {
            (batch, run.1)
        } else {
            let cleared = match clear {
                Some(color) if at == from => seq![PassView::Clear(color)],
                _ => seq![],
            };
            let composite = complex_blend_pass(ctx, cmds[at], run.1);
            let rest = passes_from(ctx, cmds, at + 1, composite.1, blend, None);
            (batch + cleared + seq![composite.0] + rest.0, rest.1)
        }
    }
}

/// The passes for a whole list: one pass where no complex blend breaks it up.
pub open spec fn toplevel_passes(
    ctx: RenderContext,
    cmds: Seq<Command>,
    st: RunState,
    blend: Option<TrivialBlend>,
    clear: Option<Color>,
) -> (Seq<PassView>, RunState) {
    if has_toplevel_complex(cmds) {
        passes_from(ctx, cmds, 0, st, blend, clear)
    } else {
        let run = run_list(ctx, cmds, st, blend);
        (
            seq![
                PassView::Render {
                    load: first_load(clear),
                    clear_stencil: true,
                    ops: pass_ops(run.0),
                },
            ],
            run.1,
        )
    }
}

/// The number of masks after a command that stands directly in a frame's list.
pub open spec fn toplevel_command_masks_after(cmd: Command, n: int) -> int {
    if is_complex_blend(cmd) {
        n
    } else {
        command_masks_after(cmd, n)
    }
}

/// The number of masks after a frame's list.
pub open spec fn toplevel_masks_after(cmds: Seq<Command>, n: int) -> int
    decreases cmds.len(),
{
    if cmds.len() == 0 {
        n
    } else {
        toplevel_command_masks_after(cmds.last(), toplevel_masks_after(cmds.drop_last(), n))
    }
}

/// Whether a command that stands directly in a frame's list never pops a mask
/// that was not pushed, nor counts beyond 32 bits.
pub open spec fn toplevel_command_masks_ok(cmd: Command, n: int) -> bool {
    if is_complex_blend(cmd) {
        cmd matches Command::Blend(sub, _) && masks_ok(sub.commands@, 0)
    } else {
        command_masks_ok(cmd, n)
    }
}

/// Whether a frame's list never pops a mask that was not pushed, nor counts
/// beyond 32 bits.
pub open spec fn toplevel_masks_ok(cmds: Seq<Command>, n: int) -> bool
    decreases cmds.len(),
{
    cmds.len() == 0 || {
        &&& toplevel_masks_ok(cmds.drop_last(), n)
        &&& toplevel_command_masks_ok(cmds.last(), toplevel_masks_after(cmds.drop_last(), n))
    }
}

/// Check if a command list contains any complex blend commands (recursively).
pub fn has_complex_blends(commands: &CommandList) -> (r: bool)
    ensures
        r == contains_complex_blend(commands.commands@),
    decreases commands,
{
    let ghost cmds = commands.commands@;
    let mut i: usize = 0;
    while i < commands.commands.len()
        invariant
            cmds == commands.commands@,
            i <= commands.commands.len(),
            !contains_complex_blend(cmds.take(i as int)),
        decreases commands.commands.len() - i,
    {
        assert(cmds.take(i + 1).drop_last() == cmds.take(i as int));
        if command_has_complex_blends(&commands.commands[i]) {
            proof {
                lemma_complex_in_prefix(cmds, i + 1);
            }
            return true;
        }
        i += 1;
    }
    assert(cmds.take(i as int) == cmds);
    false
}

/// Check if a command is or contains a complex blend.
fn command_has_complex_blends(cmd: &Command) -> (r: bool)
    ensures
        r == holds_complex_blend(*cmd),
    decreases cmd,
{
    match cmd {
        Command::Blend(sub_commands, mode) => {
            BlendType::from(*mode).is_complex() || has_complex_blends(sub_commands)
        },
        Command::RenderAlphaMask { maskee_commands, mask_commands } => {
            has_complex_blends(maskee_commands) || has_complex_blends(mask_commands)
        },
        _ => false,
    }
}

/// What holds a complex blend in its beginning holds one.
proof fn lemma_complex_in_prefix(cmds: Seq<Command>, i: int)
    requires
        0 <= i <= cmds.len(),
        contains_complex_blend(cmds.take(i)),
    ensures
        contains_complex_blend(cmds),
    decreases cmds.len() - i,
{
    if i < cmds.len() {
        assert(cmds.take(i + 1).drop_last() == cmds.take(i));
        lemma_complex_in_prefix(cmds, i + 1);
    } else {
        assert(cmds.take(i) == cmds);
    }
}

/// Whether a command is a complex blend, and which.
fn complex_blend_of(cmd: &Command) -> (r: Option<ComplexBlend>)
    ensures
        r is Some == is_complex_blend(*cmd),
        r matches Some(complex) ==> (*cmd matches Command::Blend(_, mode) && classify(mode)
            == BlendType::Complex(complex)),
{
    match cmd {
        Command::Blend(_, mode) => match BlendType::from(*mode) {
            BlendType::Complex(complex) => Some(complex),
            BlendType::Trivial(_) => None,
        },
        _ => None,
    }
}

/// Where the next complex blend stands.
fn find_complex(commands: &CommandList, from: usize) -> (r: usize)
    requires
        from <= commands.commands@.len(),
    ensures
        r == next_complex(commands.commands@, from as int),
        from <= r <= commands.commands@.len(),
        r < commands.commands@.len() ==> is_complex_blend(commands.commands@[r as int]),
        forall|i: int| from <= i < r ==> !is_complex_blend(#[trigger] commands.commands@[i]),
{
    let mut i: usize = from;
    while i < commands.commands.len()
        invariant
            from <= i <= commands.commands@.len(),
            next_complex(commands.commands@, from as int) == next_complex(
                commands.commands@,
                i as int,
            ),
            forall|j: int| from <= j < i ==> !is_complex_blend(#[trigger] commands.commands@[j]),
        decreases commands.commands.len() - i,
    {
        if complex_blend_of(&commands.commands[i]).is_some() {
            return i;
        }
        i += 1;
    }
    i
}

/// Records a batch of commands into the operations of one pass.
fn execute_batch(
    ctx: &RenderContext,
    commands: &CommandList,
    from: usize,
    to: usize,
    state: &mut ExecState,
    blend: Option<TrivialBlend>,
) -> (ops: Vec<RenderOp>)
    requires
        ctx.wf(),
        from <= to <= commands.commands@.len(),
        ctx.can_address(
            old(state)@.index + transform_count(
                commands.commands@.subrange(from as int, to as int),
            ),
        ),
        masks_ok(commands.commands@.subrange(from as int, to as int), old(state)@.num_masks),
    ensures
        ({
            let run = run_list(
                *ctx,
                commands.commands@.subrange(from as int, to as int),
                old(state)@,
                blend,
            );
            &&& ops@ == pass_ops(run.0)
            &&& final(state)@ == run.1
        }),
{
    let ghost batch = commands.commands@.subrange(from as int, to as int);
    let ghost start = state@;
    let mut ops: Vec<RenderOp> = Vec::new();
    ops.push(RenderOp::SetBindGroup { group: 0, bind_group: BindGroup::Globals });
    let mut i: usize = from;
    while i < to
        invariant
            batch == commands.commands@.subrange(from as int, to as int),
            from <= i <= to <= commands.commands@.len(),
            ctx.wf(),
            ctx.can_address(start.index + transform_count(batch)),
            masks_ok(batch, start.num_masks),
            ops@ == pass_ops(run_list(*ctx, batch.take(i - from), start, blend).0),
            state@ == run_list(*ctx, batch.take(i - from), start, blend).1,
        decreases to - i,
    {
        proof {
            let k = i - from;
            assert(batch.take(k + 1).drop_last() == batch.take(k));
            crate::render::lemma_prefix(batch, k + 1, start.num_masks);
            run_list_state(*ctx, batch.take(k), start, blend);
        }
        execute_single_command(ctx, &commands.commands[i], state, blend, &mut ops);
        i += 1;
    }
    assert(batch.take(to - from) == batch);
    ops
}

/// Execute a complex blend operation by rendering sub-commands to an
/// intermediate texture and compositing with the framebuffer.
fn execute_complex_blend(
    ctx: &RenderContext,
    cmd: &Command,
    state: &mut ExecState,
) -> (pass: Pass)
    requires
        is_complex_blend(*cmd),
        ctx.wf(),
        ctx.can_address(old(state)@.index + command_transforms(*cmd)),
        toplevel_command_masks_ok(*cmd, old(state)@.num_masks),
    ensures
        pass@ == complex_blend_pass(*ctx, *cmd, old(state)@).0,
        final(state)@ == complex_blend_pass(*ctx, *cmd, old(state)@).1,
{
    let mut ops: Vec<RenderOp> = Vec::new();
    ops.push(RenderOp::SetBindGroup { group: 0, bind_group: BindGroup::Globals });
    match cmd {
        Command::Blend(sub_commands, mode) => {
            // Reset mask state for sub-command rendering.
            let mut sub_state = ExecState {
                transform_index: state.transform_index,
                mask_state: MaskState::NoMask,
                num_masks: 0,
            };
            execute_commands(ctx, sub_commands, &mut sub_state, None, &mut ops);
            state.transform_index = sub_state.transform_index;
            match BlendType::from(*mode) {
                BlendType::Complex(blend) => Pass::ComplexBlend { blend, ops },
                BlendType::Trivial(_) => Pass::Render { load: LoadOp::Load, clear_stencil: false, ops },
            }
        },
        _ => Pass::Render { load: LoadOp::Load, clear_stencil: false, ops },
    }
}

/// A batch without complex blends treats masks as a whole list would.
proof fn lemma_batch_masks(cmds: Seq<Command>, n: int)
    requires
        forall|i: int| 0 <= i < cmds.len() ==> !is_complex_blend(#[trigger] cmds[i]),
    ensures
        toplevel_masks_ok(cmds, n) == masks_ok(cmds, n),
        toplevel_masks_after(cmds, n) == masks_after(cmds, n),
    decreases cmds.len(),
{
    if cmds.len() > 0 {
        assert forall|i: int| 0 <= i < cmds.drop_last().len() implies !is_complex_blend(
            #[trigger] cmds.drop_last()[i],
        ) by {
            assert(cmds.drop_last()[i] == cmds[i]);
        }
        lemma_batch_masks(cmds.drop_last(), n);
        assert(!is_complex_blend(cmds[cmds.len() - 1]));
    }
}

/// Masks and transforms of two lists in a row.
proof fn lemma_concat(a: Seq<Command>, b: Seq<Command>, n: int)
    ensures
        transform_count(a + b) == transform_count(a) + transform_count(b),
        toplevel_masks_ok(a + b, n) <==> toplevel_masks_ok(a, n) && toplevel_masks_ok(
            b,
            toplevel_masks_after(a, n),
        ),
        toplevel_masks_after(a + b, n) == toplevel_masks_after(b, toplevel_masks_after(a, n)),
    decreases b.len(),
{
    if b.len() == 0 {
        assert(a + b == a);
    } else {
        lemma_concat(a, b.drop_last(), n);
        assert((a + b).drop_last() == a + b.drop_last());
    }
}

/// What is left of a list splits into the batch, the complex blend and the rest.
proof fn lemma_split(cmds: Seq<Command>, from: int, at: int, n: int)
    requires
        0 <= from <= at <= cmds.len(),
        forall|i: int| from <= i < at ==> !is_complex_blend(#[trigger] cmds[i]),
        toplevel_masks_ok(cmds.skip(from), n),
    ensures
        ({
            let batch = cmds.subrange(from, at);
            let n1 = masks_after(batch, n);
            &&& masks_ok(batch, n)
            &&& transform_count(cmds.skip(from)) >= transform_count(batch)
            &&& at < cmds.len() ==> {
                &&& toplevel_command_masks_ok(cmds[at], n1)
                &&& toplevel_masks_ok(
                    cmds.skip(at + 1),
                    toplevel_command_masks_after(cmds[at], n1),
                )
                &&& transform_count(cmds.skip(from)) == transform_count(batch)
                    + command_transforms(cmds[at]) + transform_count(cmds.skip(at + 1))
            }
            &&& at == cmds.len() ==> transform_count(cmds.skip(from)) == transform_count(batch)
        }),
{
    let batch = cmds.subrange(from, at);
    assert forall|i: int| 0 <= i < batch.len() implies !is_complex_blend(#[trigger] batch[i]) by {
        assert(batch[i] == cmds[from + i]);
    }
    lemma_batch_masks(batch, n);
    assert(cmds.skip(from) == batch + cmds.skip(at));
    lemma_concat(batch, cmds.skip(at), n);
    if at < cmds.len() {
        let n1 = masks_after(batch, n);
        let one = seq![cmds[at]];
        assert(cmds.skip(at) == one + cmds.skip(at + 1));
        lemma_concat(one, cmds.skip(at + 1), n1);
        assert(one.drop_last() == Seq::<Command>::empty());
        assert(one.last() == cmds[at]);
        reveal_with_fuel(toplevel_masks_ok, 2);
        reveal_with_fuel(toplevel_masks_after, 2);
        reveal_with_fuel(transform_count, 2);
    } else {
        assert(cmds.skip(at) == Seq::<Command>::empty());
    }
}

/// Top-level command execution that manages render pass lifecycle.
/// It breaks out of render passes to handle complex blend modes
/// which require render-to-texture compositing.
pub fn execute_toplevel(
    ctx: &RenderContext,
    clear_color: Option<Color>,
    commands: &CommandList,
    state: &mut ExecState,
    blend: Option<TrivialBlend>,
) -> (passes: Vec<Pass>)
    requires
        ctx.wf(),
        ctx.can_address(old(state)@.index + transform_count(commands.commands@)),
        toplevel_masks_ok(commands.commands@, old(state)@.num_masks),
    ensures
        ({
            let plan = toplevel_passes(
                *ctx,
                commands.commands@,
                old(state)@,
                blend,
                clear_color,
            );
            &&& pass_views(passes@) == plan.0
            &&& final(state)@ == plan.1
        }),
{
    let ghost cmds = commands.commands@;
    let ghost start = state@;
    let mut passes: Vec<Pass> = Vec::new();
    let mut clear = clear_color;

    let first_complex: usize = find_complex(commands, 0);
    if first_complex == commands.commands.len() {
        // Single render pass for everything.
        proof {
            lemma_batch_masks(cmds, start.num_masks);
            assert(cmds.subrange(0, cmds.len() as int) == cmds);
        }
        let load = match clear {
            Some(color) => LoadOp::Clear(color),
            None => LoadOp::Load,
        };
        let ops = execute_batch(ctx, commands, 0, commands.commands.len(), state, blend);
        passes.push(Pass::Render { load, clear_stencil: true, ops });
        assert(pass_views(passes@) == toplevel_passes(*ctx, cmds, start, blend, clear_color).0);
        return passes;
    }
    proof {
        assert(is_complex_blend(cmds[first_complex as int]));
        assert(cmds.skip(0) == cmds);
    }
    // Process commands in batches, breaking out for complex blends.
    let ghost whole = passes_from(*ctx, cmds, 0, start, blend, clear_color);
    let mut at: usize = 0;
    while at < commands.commands.len()
        invariant
            cmds == commands.commands@,
            at <= cmds.len(),
            ctx.wf(),
            ctx.can_address(state@.index + transform_count(cmds.skip(at as int))),
            toplevel_masks_ok(cmds.skip(at as int), state@.num_masks),
            whole.0 == pass_views(passes@) + passes_from(
                *ctx,
                cmds,
                at as int,
                state@,
                blend,
                clear,
            ).0,
            whole.1 == passes_from(*ctx, cmds, at as int, state@, blend, clear).1,
        decreases commands.commands.len() - at,
    {
        let blend_at: usize = find_complex(commands, at);
        let ghost here = state@;
        let ghost before = pass_views(passes@);
        let ghost run = run_list(
            *ctx,
            cmds.subrange(at as int, blend_at as int),
            here,
            blend,
        );
        let ghost rest = passes_from(*ctx, cmds, at as int, here, blend, clear);
        proof {
            lemma_split(cmds, at as int, blend_at as int, here.num_masks);
            run_list_state(*ctx, cmds.subrange(at as int, blend_at as int), here, blend);
        }
        // Render commands up to the complex blend (or end).
        if blend_at > at {
            let load = match clear {
                Some(color) => LoadOp::Clear(color),
                None => LoadOp::Load,
            };
            let ops = execute_batch(ctx, commands, at, blend_at, state, blend);
            passes.push(Pass::Render { load, clear_stencil: false, ops });
        } else {
            assert(cmds.subrange(at as int, blend_at as int) == Seq::<Command>::empty());
        }
        if blend_at < commands.commands.len() {
            if blend_at == at {
                // Clear the target if this is the first thing in the frame.
                if let Some(color) = clear {
                    passes.push(Pass::Clear(color));
                }
            }
            proof {
                let run_sub = complex_blend_pass(*ctx, cmds[blend_at as int], state@);
                if let Command::Blend(sub, _) = cmds[blend_at as int] {
                    run_list_state(*ctx, sub.commands@, blend_content_state(state@), None);
                }
            }
            let pass = execute_complex_blend(ctx, &commands.commands[blend_at], state);
            passes.push(pass);
            at = blend_at + 1;
        } else {
            assert(cmds.skip(blend_at as int) == Seq::<Command>::empty());
            at = blend_at;
        }
        clear = None;
        assert(whole.0 == pass_views(passes@) + passes_from(
            *ctx,
            cmds,
            at as int,
            state@,
            blend,
            clear,
        ).0);
    }
    passes
}

/// Whether a frame's list, started at a number of masks, never pops a mask that
/// was not pushed nor counts beyond 32 bits; if so, the number of masks after it.
pub fn check_toplevel_masks(commands: &CommandList, num_masks: u32) -> (r: Option<u32>)
    ensures
        r is Some == toplevel_masks_ok(commands.commands@, num_masks as int),
        r matches Some(n) ==> n == toplevel_masks_after(commands.commands@, num_masks as int),
{
    let ghost cmds = commands.commands@;
    let mut n: u32 = num_masks;
    let mut i: usize = 0;
    while i < commands.commands.len()
        invariant
            cmds == commands.commands@,
            i <= commands.commands.len(),
            toplevel_masks_ok(cmds.take(i as int), num_masks as int),
            n == toplevel_masks_after(cmds.take(i as int), num_masks as int),
        decreases commands.commands.len() - i,
    {
        proof {
            assert(cmds.take(i + 1).drop_last() == cmds.take(i as int));
            assert(cmds == cmds.take(i + 1) + cmds.skip(i + 1));
            lemma_concat(cmds.take(i + 1), cmds.skip(i + 1), num_masks as int);
        }
        let cmd = &commands.commands[i];
        if complex_blend_of(cmd).is_some() {
            if let Command::Blend(sub_commands, _) = cmd {
                if check_masks(sub_commands, 0).is_none() {
                    return None;
                }
            }
        } else {
            n = match check_command_masks(cmd, n) {
                Some(m) => m,
                None => {
                    return None;
                },
            };
        }
        i += 1;
    }
    assert(cmds.take(i as int) == cmds);
    Some(n)
}

/// The passes of a frame together use up exactly the transforms collected from
/// its list, and leave the number of masks that its list says. Masks inside a
/// complex blend are its own.
pub proof fn passes_use_all_transforms(
    ctx: RenderContext,
    cmds: Seq<Command>,
    st: RunState,
    blend: Option<TrivialBlend>,
    clear: Option<Color>,
)
    ensures
        toplevel_passes(ctx, cmds, st, blend, clear).1.index == st.index + transform_count(cmds),
        toplevel_passes(ctx, cmds, st, blend, clear).1.num_masks == toplevel_masks_after(
            cmds,
            st.num_masks,
        ),
{
    if has_toplevel_complex(cmds) {
        assert(cmds.skip(0) == cmds);
        lemma_passes_from_state(ctx, cmds, 0, st, blend, clear);
    } else {
        assert forall|i: int| 0 <= i < cmds.len() implies !is_complex_blend(#[trigger] cmds[i]) by {
        }
        lemma_batch_masks(cmds, st.num_masks);
        run_list_state(ctx, cmds, st, blend);
    }
}

proof fn lemma_next_complex(cmds: Seq<Command>, from: int)
    requires
        0 <= from <= cmds.len(),
    ensures
        from <= next_complex(cmds, from) <= cmds.len(),
        next_complex(cmds, from) < cmds.len() ==> is_complex_blend(
            cmds[next_complex(cmds, from)],
        ),
        forall|i: int|
            from <= i < next_complex(cmds, from) ==> !is_complex_blend(#[trigger] cmds[i]),
    decreases cmds.len() - from,
{
    if from < cmds.len() && !is_complex_blend(cmds[from]) {
        lemma_next_complex(cmds, from + 1);
    }
}

proof fn lemma_passes_from_state(
    ctx: RenderContext,
    cmds: Seq<Command>,
    from: int,
    st: RunState,
    blend: Option<TrivialBlend>,
    clear: Option<Color>,
)
    requires
        0 <= from <= cmds.len(),
    ensures
        passes_from(ctx, cmds, from, st, blend, clear).1.index == st.index + transform_count(
            cmds.skip(from),
        ),
        passes_from(ctx, cmds, from, st, blend, clear).1.num_masks == toplevel_masks_after(
            cmds.skip(from),
            st.num_masks,
        ),
    decreases cmds.len() - from,
{
    if from == cmds.len() {
        assert(cmds.skip(from) == Seq::<Command>::empty());
    } else {
        let at = next_complex(cmds, from);
        lemma_next_complex(cmds, from);
        let batch = cmds.subrange(from, at);
        assert forall|i: int| 0 <= i < batch.len() implies !is_complex_blend(
            #[trigger] batch[i],
        ) by {
            assert(batch[i] == cmds[from + i]);
        }
        lemma_batch_masks(batch, st.num_masks);
        run_list_state(ctx, batch, st, blend);
        assert(cmds.skip(from) == batch + cmds.skip(at));
        lemma_concat(batch, cmds.skip(at), st.num_masks);
        let mid = run_list(ctx, batch, st, blend).1;
        if at == cmds.len() {
            assert(cmds.skip(at) == Seq::<Command>::empty());
        } else {
            let one = seq![cmds[at]];
            assert(cmds.skip(at) == one + cmds.skip(at + 1));
            lemma_concat(one, cmds.skip(at + 1), mid.num_masks);
            assert(one.drop_last() == Seq::<Command>::empty());
            assert(one.last() == cmds[at]);
            reveal_with_fuel(toplevel_masks_after, 2);
            reveal_with_fuel(transform_count, 2);
            let after = complex_blend_pass(ctx, cmds[at], mid).1;
            if let Command::Blend(sub, _) = cmds[at] {
                run_list_state(ctx, sub.commands@, blend_content_state(mid), None);
            }
            lemma_passes_from_state(ctx, cmds, at + 1, after, blend, None);
        }
    }
}

/// Whether a pass clears the target to a color.
pub open spec fn clears_to(pass: PassView, color: Color) -> bool {
    match pass {
        PassView::Render { load, .. } => load == LoadOp::Clear(color),
        PassView::Clear(c) => c == color,
        PassView::ComplexBlend { .. } => false,
    }
}

/// Whether a pass keeps what is on the target.
pub open spec fn keeps_target(pass: PassView) -> bool {
    match pass {
        PassView::Render { load, .. } => load == LoadOp::Load,
        PassView::Clear(_) => false,
        PassView::ComplexBlend { .. } => true,
    }
}

/// A frame is cleared to its color by its first pass and by no other.
pub proof fn frame_is_cleared_once(
    ctx: RenderContext,
    cmds: Seq<Command>,
    st: RunState,
    blend: Option<TrivialBlend>,
    color: Color,
)
    ensures
        ({
            let passes = toplevel_passes(ctx, cmds, st, blend, Some(color)).0;
            &&& passes.len() > 0
            &&& clears_to(passes[0], color)
            &&& forall|i: int| 0 < i < passes.len() ==> keeps_target(#[trigger] passes[i])
        }),
{
    if has_toplevel_complex(cmds) {
        let i = choose|i: int| 0 <= i < cmds.len() && is_complex_blend(#[trigger] cmds[i]);
        let at = next_complex(cmds, 0);
        lemma_next_complex(cmds, 0);
        let run = run_list(ctx, cmds.subrange(0, at), st, blend);
        assert(at < cmds.len());
        let composite = complex_blend_pass(ctx, cmds[at], run.1);
        lemma_later_passes_keep(ctx, cmds, at + 1, composite.1, blend);
        lemma_composite_keeps(ctx, cmds[at], run.1);
        let rest = passes_from(ctx, cmds, at + 1, composite.1, blend, None).0;
        let all = passes_from(ctx, cmds, 0, st, blend, Some(color)).0;
        let n = all.len() - rest.len();
        assert forall|i: int| 0 < i < all.len() implies keeps_target(#[trigger] all[i]) by {
            if i >= n {
                assert(all[i] == rest[i - n]);
            }
        }
    }
}

/// Compositing keeps what is on the target.
proof fn lemma_composite_keeps(ctx: RenderContext, cmd: Command, st: RunState)
    requires
        is_complex_blend(cmd),
    ensures
        keeps_target(complex_blend_pass(ctx, cmd, st).0),
        complex_blend_pass(ctx, cmd, st).0 is ComplexBlend,
{
}

/// Passes that are not the first of a frame never clear the target.
proof fn lemma_later_passes_keep(
    ctx: RenderContext,
    cmds: Seq<Command>,
    from: int,
    st: RunState,
    blend: Option<TrivialBlend>,
)
    requires
        0 <= from <= cmds.len(),
    ensures
        forall|i: int|
            0 <= i < passes_from(ctx, cmds, from, st, blend, None).0.len() ==> keeps_target(
                #[trigger] passes_from(ctx, cmds, from, st, blend, None).0[i],
            ),
    decreases cmds.len() - from,
{
    if from < cmds.len() {
        let at = next_complex(cmds, from);
        lemma_next_complex(cmds, from);
        if at < cmds.len() {
            let run = run_list(ctx, cmds.subrange(from, at), st, blend);
            let composite = complex_blend_pass(ctx, cmds[at], run.1);
            lemma_later_passes_keep(ctx, cmds, at + 1, composite.1, blend);
            lemma_composite_keeps(ctx, cmds[at], run.1);
            let rest = passes_from(ctx, cmds, at + 1, composite.1, blend, None).0;
            let all = passes_from(ctx, cmds, from, st, blend, None).0;
            let n = all.len() - rest.len();
            assert forall|i: int| 0 <= i < all.len() implies keeps_target(#[trigger] all[i]) by {
                if i >= n {
                    assert(all[i] == rest[i - n]);
                }
            }
        }
    }
}

/// A list that holds a complex blend directly holds one at some depth, so a frame
/// whose passes are broken up always has the buffers that compositing needs.
pub proof fn broken_up_frames_are_offscreen(cmds: Seq<Command>)
    requires
        has_toplevel_complex(cmds),
    ensures
        contains_complex_blend(cmds),
{
    let i = choose|i: int| 0 <= i < cmds.len() && is_complex_blend(#[trigger] cmds[i]);
    assert(cmds.take(i + 1).last() == cmds[i]);
    assert(holds_complex_blend(cmds[i]));
    lemma_complex_in_prefix(cmds, i + 1);
}

/// Whether a pass binds the globals first, if it draws.
pub open spec fn begins_with_globals(pass: PassView) -> bool {
    match pass {
        PassView::Render { ops, .. } | PassView::ComplexBlend { ops, .. } => ops.len() > 0
            && ops[0] == (RenderOp::SetBindGroup { group: 0, bind_group: BindGroup::Globals }),
        PassView::Clear(_) => true,
    }
}

/// Every pass that draws binds the globals before anything else.
pub proof fn passes_bind_the_globals(
    ctx: RenderContext,
    cmds: Seq<Command>,
    st: RunState,
    blend: Option<TrivialBlend>,
    clear: Option<Color>,
    i: int,
)
    requires
        0 <= i < toplevel_passes(ctx, cmds, st, blend, clear).0.len(),
    ensures
        begins_with_globals(toplevel_passes(ctx, cmds, st, blend, clear).0[i]),
{
    if has_toplevel_complex(cmds) {
        lemma_globals(ctx, cmds, 0, st, blend, clear);
    }
}

proof fn lemma_globals(
    ctx: RenderContext,
    cmds: Seq<Command>,
    from: int,
    st: RunState,
    blend: Option<TrivialBlend>,
    clear: Option<Color>,
)
    requires
        0 <= from <= cmds.len(),
    ensures
        forall|i: int|
            0 <= i < passes_from(ctx, cmds, from, st, blend, clear).0.len()
                ==> begins_with_globals(
                #[trigger] passes_from(ctx, cmds, from, st, blend, clear).0[i],
            ),
    decreases cmds.len() - from,
{
    if from < cmds.len() {
        let at = next_complex(cmds, from);
        lemma_next_complex(cmds, from);
        if at < cmds.len() {
            let run = run_list(ctx, cmds.subrange(from, at), st, blend);
            let composite = complex_blend_pass(ctx, cmds[at], run.1);
            lemma_globals(ctx, cmds, at + 1, composite.1, blend, None);
            lemma_composite_keeps(ctx, cmds[at], run.1);
            let rest = passes_from(ctx, cmds, at + 1, composite.1, blend, None).0;
            let all = passes_from(ctx, cmds, from, st, blend, clear).0;
            let n = all.len() - rest.len();
            assert forall|i: int| 0 <= i < all.len() implies begins_with_globals(
                #[trigger] all[i],
            ) by {
                if i >= n {
                    assert(all[i] == rest[i - n]);
                }
            }
        }
    }
}

/// A list without complex blends is drawn in one pass, which clears the stencil, and the
/// target where a color is given: the globals are bound, and then the whole list is drawn.
pub proof fn plain_lists_take_one_pass(
    ctx: RenderContext,
    cmds: Seq<Command>,
    st: RunState,
    blend: Option<TrivialBlend>,
    clear: Option<Color>,
)
    requires
        forall|i: int| 0 <= i < cmds.len() ==> !is_complex_blend(#[trigger] cmds[i]),
    ensures
        ({
            let (passes, after) = toplevel_passes(ctx, cmds, st, blend, clear);
            let (ops, end) = run_list(ctx, cmds, st, blend);
            &&& after == end
            &&& passes.len() == 1
            &&& passes[0] matches PassView::Render { load, clear_stencil, ops: drawn } && {
                &&& clear_stencil
                &&& drawn.skip(1) == ops
                &&& clear matches Some(color) ==> load == LoadOp::Clear(color)
                &&& clear is None ==> load == LoadOp::Load
            }
        }),
{
    let ops = run_list(ctx, cmds, st, blend).0;
    assert(pass_ops(ops).skip(1) =~= ops);
}

/// A list is broken up at a complex blend. What stands before it is drawn first, in a pass of
/// its own; where nothing does, the target is only cleared. Then the content of the blend is
/// drawn to itself, with the transforms that come next, without the masks and blends around
/// it, and composited as its mode says. Then the rest of the list is drawn like a list of its
/// own, with the masks that were there before the blend, onto what is there.
pub proof fn complex_blends_break_up_a_list(
    ctx: RenderContext,
    before: Seq<Command>,
    cmd: Command,
    rest: Seq<Command>,
    st: RunState,
    blend: Option<TrivialBlend>,
    clear: Option<Color>,
)
    requires
        forall|i: int| 0 <= i < before.len() ==> !is_complex_blend(#[trigger] before[i]),
        is_complex_blend(cmd),
    ensures
        cmd matches Command::Blend(sub, mode) && classify(mode) matches BlendType::Complex(
            complex,
        ) && ({
            let (passes, after) = toplevel_passes(
                ctx,
                before + seq![cmd] + rest,
                st,
                blend,
                clear,
            );
            let (ops, mid) = run_list(ctx, before, st, blend);
            let (content, end) = run_list(
                ctx,
                sub.commands@,
                RunState { index: mid.index, mask_state: MaskState::NoMask, num_masks: 0 },
                None,
            );
            let later = passes_from(
                ctx,
                rest,
                0,
                RunState {
                    index: end.index,
                    mask_state: mid.mask_state,
                    num_masks: mid.num_masks,
                },
                blend,
                None,
            );
            let n: int = if before.len() > 0 || clear is Some {
                1
            } else {
                0
            };
            &&& after == later.1
            &&& passes.len() == n + 1 + later.0.len()
            &&& before.len() > 0 ==> (passes[0] matches PassView::Render {
                load,
                clear_stencil,
                ops: drawn,
            } && {
                &&& !clear_stencil
                &&& drawn.skip(1) == ops
                &&& clear matches Some(color) ==> load == LoadOp::Clear(color)
                &&& clear is None ==> load == LoadOp::Load
            })
            &&& before.len() == 0 ==> (clear matches Some(color) ==> passes[0]
                == PassView::Clear(color))
            &&& passes[n] matches PassView::ComplexBlend { blend: b, ops: drawn } && b == complex
                && drawn.skip(1) == content
            &&& passes.skip(n + 1) == later.0
        }),
{
    let cmds = before + seq![cmd] + rest;
    let k = before.len() as int;
    assert(cmds[k] == cmd);
    assert(has_toplevel_complex(cmds));
    assert forall|i: int| 0 <= i < k implies !is_complex_blend(#[trigger] cmds[i]) by {
        assert(cmds[i] == before[i]);
    }
    lemma_next_complex(cmds, 0);
    let at = next_complex(cmds, 0);
    assert(at == k) by {
        if at < k {
            assert(is_complex_blend(cmds[at]));
        } else if at > k {
            assert(!is_complex_blend(cmds[k]));
        }
    }
    assert(cmds.subrange(0, at) == before);
    assert(cmds.skip(k + 1) == rest);
    let run = run_list(ctx, before, st, blend);
    let composite = complex_blend_pass(ctx, cmd, run.1);
    lemma_passes_of_rest(ctx, cmds, k + 1, composite.1, blend, None);
    let later = passes_from(ctx, rest, 0, composite.1, blend, None);
    let passes = toplevel_passes(ctx, cmds, st, blend, clear).0;
    let n: int = if k > 0 || clear is Some {
        1
    } else {
        0
    };
    assert(passes.skip(n + 1) =~= later.0);
    assert(pass_ops(run.0).skip(1) =~= run.0);
    if let Command::Blend(sub, mode) = cmd {
        let content = run_list(ctx, sub.commands@, blend_content_state(run.1), None);
        assert(pass_ops(content.0).skip(1) =~= content.0);
    }
}

proof fn lemma_next_of_rest(cmds: Seq<Command>, skipped: int, from: int)
    requires
        0 <= skipped <= from <= cmds.len(),
    ensures
        next_complex(cmds, from) == skipped + next_complex(cmds.skip(skipped), from - skipped),
    decreases cmds.len() - from,
{
    if from < cmds.len() {
        lemma_next_of_rest(cmds, skipped, from + 1);
    }
}

/// The passes for a list from a position on are those for the rest of it.
proof fn lemma_passes_of_rest(
    ctx: RenderContext,
    cmds: Seq<Command>,
    from: int,
    st: RunState,
    blend: Option<TrivialBlend>,
    clear: Option<Color>,
)
    requires
        0 <= from <= cmds.len(),
    ensures
        passes_from(ctx, cmds, from, st, blend, clear) == passes_from(
            ctx,
            cmds.skip(from),
            0,
            st,
            blend,
            clear,
        ),
    decreases cmds.len() - from,
{
    let rest = cmds.skip(from);
    if from < cmds.len() {
        let at = next_complex(cmds, from);
        lemma_next_complex(cmds, from);
        lemma_next_of_rest(cmds, from, from);
        assert(cmds.subrange(from, at) == rest.subrange(0, at - from));
        if at < cmds.len() {
            let run = run_list(ctx, cmds.subrange(from, at), st, blend);
            let composite = complex_blend_pass(ctx, cmds[at], run.1);
            assert(rest[at - from] == cmds[at]);
            lemma_passes_of_rest(ctx, cmds, at + 1, composite.1, blend, None);
            lemma_passes_of_rest(ctx, rest, at + 1 - from, composite.1, blend, None);
            assert(rest.skip(at + 1 - from) == cmds.skip(at + 1));
        }
    }
}

/// A list holds a complex blend exactly where one of its commands is one, or holds one in a
/// list of its own.
pub proof fn complex_blends_are_found_at_any_depth(cmds: Seq<Command>)
    ensures
        contains_complex_blend(cmds) <==> exists|i: int|
            0 <= i < cmds.len() && #[trigger] holds_complex_blend(cmds[i]),
        forall|i: int| #![trigger holds_complex_blend(cmds[i])]
            0 <= i < cmds.len() ==> (holds_complex_blend(cmds[i]) <==> match cmds[i] {
                Command::Blend(sub, mode) => classify(mode) is Complex || contains_complex_blend(
                    sub.commands@,
                ),
                Command::RenderAlphaMask { maskee_commands, mask_commands } => {
                    contains_complex_blend(maskee_commands.commands@) || contains_complex_blend(
                        mask_commands.commands@,
                    )
                },
                _ => false,
            }),
    decreases cmds.len(),
{
    if cmds.len() > 0 {
        let init = cmds.drop_last();
        complex_blends_are_found_at_any_depth(init);
        if contains_complex_blend(init) {
            let i = choose|i: int| 0 <= i < init.len() && #[trigger] holds_complex_blend(init[i]);
            assert(holds_complex_blend(cmds[i]));
        } else {
            assert forall|i: int| 0 <= i < init.len() implies !(
            #[trigger] holds_complex_blend(cmds[i])) by {
                assert(!holds_complex_blend(init[i]));
            }
            if contains_complex_blend(cmds) {
                assert(holds_complex_blend(cmds[cmds.len() - 1]));
            }
        }
    }
}

/// The masks of a frame are counted like those of a list, but for those inside of a complex blend
/// that stands directly in it: they are counted from none, and forgotten after it.
pub proof fn complex_blends_count_their_own_masks(cmd: Command, n: int)
    ensures
        is_complex_blend(cmd) ==> toplevel_command_masks_after(cmd, n) == n && (
        cmd matches Command::Blend(sub, _) && (toplevel_command_masks_ok(cmd, n) <==> masks_ok(
            sub.commands@,
            0,
        ))),
        !is_complex_blend(cmd) ==> toplevel_command_masks_after(cmd, n) == command_masks_after(
            cmd,
            n,
        ) && (toplevel_command_masks_ok(cmd, n) <==> command_masks_ok(cmd, n)),
        is_complex_blend(cmd) <==> (cmd matches Command::Blend(_, mode) && classify(
            mode,
        ) is Complex),
{
}

} // verus!
