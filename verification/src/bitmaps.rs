//! Bind groups for the bitmaps that a frame draws directly.
use crate::commands::{BitmapHandle, Command, CommandList};
use crate::geometry::Size;
use std::collections::HashMap;
use vstd::prelude::*;

verus! {

/// What a bitmap's bind group is made for.
#[derive(Clone, Copy, PartialEq, Eq, Structural, Debug)]
pub struct BitmapBinding {
    pub width: u32,
    pub height: u32,
    /// Sample with linear filtering instead of nearest.
    pub smoothing: bool,
}

/// The bindings after a bitmap has been drawn: a bitmap that already has one
/// keeps it, whatever smoothing is asked for.
pub open spec fn bind_bitmap(
    bound: Map<usize, BitmapBinding>,
    bitmap: BitmapHandle,
    smoothing: bool,
) -> Map<usize, BitmapBinding> {
    if bound.contains_key(bitmap.key) {
        bound
    } else {
        bound.insert(
            bitmap.key,
            BitmapBinding { width: bitmap.width, height: bitmap.height, smoothing },
        )
    }
}

/// The bindings after all bitmaps of a list have been bound, in order.
pub open spec fn bind_list(cmds: Seq<Command>, bound: Map<usize, BitmapBinding>) -> Map<
    usize,
    BitmapBinding,
>
    decreases cmds,
{
    if cmds.len() == 0 {
        bound
    } else {
        bind_command(cmds.last(), bind_list(cmds.drop_last(), bound))
    }
}

/// The bindings after all bitmaps of a command have been bound.
pub open spec fn bind_command(cmd: Command, bound: Map<usize, BitmapBinding>) -> Map<
    usize,
    BitmapBinding,
>
    decreases cmd,
{
    match cmd {
        Command::RenderBitmap { bitmap, smoothing, .. } => bind_bitmap(bound, bitmap, smoothing),
        Command::Blend(sub, _) => bind_list(sub.commands@, bound),
        Command::RenderAlphaMask { maskee_commands, mask_commands } => bind_list(
            mask_commands.commands@,
            bind_list(maskee_commands.commands@, bound),
        ),
        _ => bound,
    }
}

/// Whether every bitmap of a list, at any depth, has a binding.
pub open spec fn all_bound(cmds: Seq<Command>, bound: Map<usize, BitmapBinding>) -> bool
    decreases cmds,
{
    cmds.len() == 0 || (all_bound(cmds.drop_last(), bound) && command_bound(cmds.last(), bound))
}

/// Whether every bitmap of a command, at any depth, has a binding.
pub open spec fn command_bound(cmd: Command, bound: Map<usize, BitmapBinding>) -> bool
    decreases cmd,
{
    match cmd {
        Command::RenderBitmap { bitmap, .. } => bound.contains_key(bitmap.key),
        Command::Blend(sub, _) => all_bound(sub.commands@, bound),
        Command::RenderAlphaMask { maskee_commands, mask_commands } => all_bound(
            maskee_commands.commands@,
            bound,
        ) && all_bound(mask_commands.commands@, bound),
        _ => true,
    }
}

/// Whether one set of bindings has all that another has.
pub open spec fn extends(
    small: Map<usize, BitmapBinding>,
    large: Map<usize, BitmapBinding>,
) -> bool {
    forall|key: usize| #[trigger]
        small.contains_key(key) ==> large.contains_key(key) && large[key] == small[key]
}

/// Bitmap bind groups for the frame being drawn.
#[derive(Debug)]
pub struct BitmapBindCache {
    pub bindings: HashMap<usize, BitmapBinding>,
}

impl View for BitmapBindCache {
    type V = Map<usize, BitmapBinding>;

    open spec fn view(&self) -> Map<usize, BitmapBinding> {
        self.bindings@
    }
}

impl BitmapBindCache {
    /// A cache without bindings.
    pub fn new() -> (r: BitmapBindCache)
        ensures
            r@ == Map::<usize, BitmapBinding>::empty(),
    {
        BitmapBindCache { bindings: HashMap::new() }
    }

    /// Forgets all bindings.
    pub fn clear(&mut self)
        ensures
            final(self)@ == Map::<usize, BitmapBinding>::empty(),
    {
        self.bindings.clear();
    }

    /// Get or create a bitmap bind group for RenderBitmap.
    pub fn get_or_create_bitmap_bind_group(
        &mut self,
        bitmap: &BitmapHandle,
        smoothing: bool,
    ) -> (key: usize)
        ensures
            key == bitmap.key,
            final(self)@ == bind_bitmap(old(self)@, *bitmap, smoothing),
    {
        let key: usize = bitmap.key;
        if !self.bindings.contains_key(&key) {
            self.bindings.insert(
                key,
                BitmapBinding { width: bitmap.width, height: bitmap.height, smoothing },
            );
        }
        key
    }

    /// Pre-collect bitmap bind groups from the command list so they are ready
    /// when the list is executed.
    pub fn collect_bitmap_bind_groups(&mut self, commands: &CommandList)
        ensures
            final(self)@ == bind_list(commands.commands@, old(self)@),
        decreases commands,
    {
        let ghost cmds = commands.commands@;
        let mut i: usize = 0;
        while i < commands.commands.len()
            invariant
                cmds == commands.commands@,
                i <= commands.commands.len(),
                self@ == bind_list(cmds.take(i as int), old(self)@),
            decreases commands.commands.len() - i,
        {
            assert(cmds.take(i + 1).drop_last() == cmds.take(i as int));
            self.collect_bitmap_bind_groups_from(&commands.commands[i]);
            i += 1;
        }
        assert(cmds.take(i as int) == cmds);
    }

    /// Collects the bitmap bind groups of one command.
    fn collect_bitmap_bind_groups_from(&mut self, cmd: &Command)
        ensures
            final(self)@ == bind_command(*cmd, old(self)@),
        decreases cmd,
    {
        match cmd {
            Command::RenderBitmap { bitmap, smoothing, .. } => {
                self.get_or_create_bitmap_bind_group(bitmap, *smoothing);
            },
            Command::Blend(sub_commands, _) => {
                self.collect_bitmap_bind_groups(sub_commands);
            },
            Command::RenderAlphaMask { maskee_commands, mask_commands } => {
                self.collect_bitmap_bind_groups(maskee_commands);
                self.collect_bitmap_bind_groups(mask_commands);
            },
            _ => {},
        }
    }
}

/// The sizes of bitmaps, by their keys.
pub type BitmapSizes = Map<usize, Size>;

/// Whether a bitmap has the size that is known of its key.
pub open spec fn handle_sized(bitmap: BitmapHandle, sizes: BitmapSizes) -> bool {
    sizes.contains_key(bitmap.key) && sizes[bitmap.key] == (Size {
        width: bitmap.width,
        height: bitmap.height,
    })
}

/// Whether every bitmap of a list, at any depth, has the size that is known of its
/// key.
pub open spec fn all_sized(cmds: Seq<Command>, sizes: BitmapSizes) -> bool
    decreases cmds,
{
    cmds.len() == 0 || (all_sized(cmds.drop_last(), sizes) && command_sized(cmds.last(), sizes))
}

/// Whether every bitmap of a command, at any depth, has the size that is known of its
/// key.
pub open spec fn command_sized(cmd: Command, sizes: BitmapSizes) -> bool
    decreases cmd,
{
    match cmd {
        Command::RenderBitmap { bitmap, .. } => handle_sized(bitmap, sizes),
        Command::Blend(sub, _) => all_sized(sub.commands@, sizes),
        Command::RenderAlphaMask { maskee_commands, mask_commands } => all_sized(
            maskee_commands.commands@,
            sizes,
        ) && all_sized(mask_commands.commands@, sizes),
        _ => true,
    }
}

/// Whether every binding has the size that is known of its key.
pub open spec fn bindings_sized(bound: Map<usize, BitmapBinding>, sizes: BitmapSizes) -> bool {
    forall|key: usize| #[trigger]
        bound.contains_key(key) ==> sizes.contains_key(key) && sizes[key] == (Size {
            width: bound[key].width,
            height: bound[key].height,
        })
}

/// Whether a binding under the key of a bitmap, where there is one, is the bitmap's: it
/// has the bitmap's size.
pub open spec fn binding_is_of(bound: Map<usize, BitmapBinding>, bitmap: BitmapHandle) -> bool {
    bound.contains_key(bitmap.key) ==> bound[bitmap.key].width == bitmap.width
        && bound[bitmap.key].height == bitmap.height
}

/// A bitmap that has been bound has a binding of its own size under its key. No other
/// binding changes, and where it already had one, none does, whatever smoothing is
/// asked for.
pub proof fn bound_bitmaps_have_their_size(
    bound: Map<usize, BitmapBinding>,
    bitmap: BitmapHandle,
    smoothing: bool,
)
    requires
        binding_is_of(bound, bitmap),
    ensures
        ({
            let after = bind_bitmap(bound, bitmap, smoothing);
            &&& after.contains_key(bitmap.key)
            &&& after[bitmap.key].width == bitmap.width
            &&& after[bitmap.key].height == bitmap.height
            &&& after.remove(bitmap.key) == bound.remove(bitmap.key)
            &&& bound.contains_key(bitmap.key) ==> after == bound
            &&& !bound.contains_key(bitmap.key) ==> after[bitmap.key].smoothing == smoothing
        }),
{
    let after = bind_bitmap(bound, bitmap, smoothing);
    assert(after.remove(bitmap.key) =~= bound.remove(bitmap.key));
}

/// While a frame is drawn, a binding under the key of a bitmap is the bitmap's: the
/// cache is empty when the frame begins, and where bitmaps with the same key have the
/// same size, whatever has been bound since has the size of every bitmap with its key.
pub proof fn frames_bind_bitmaps_to_themselves(
    cmds: Seq<Command>,
    bitmap: BitmapHandle,
    sizes: BitmapSizes,
)
    requires
        all_sized(cmds, sizes),
        handle_sized(bitmap, sizes),
    ensures
        binding_is_of(bind_list(cmds, Map::<usize, BitmapBinding>::empty()), bitmap),
{
    bindings_have_the_size_of_their_bitmaps(cmds, Map::<usize, BitmapBinding>::empty(), sizes);
}

/// Two bitmaps with different keys never share a binding: binding one leaves that of
/// the other as it is, also where there is none.
pub proof fn bitmaps_do_not_share_bindings(
    bound: Map<usize, BitmapBinding>,
    bitmap: BitmapHandle,
    smoothing: bool,
    other: BitmapHandle,
)
    requires
        other.key != bitmap.key,
    ensures
        bind_bitmap(bound, bitmap, smoothing).contains_key(other.key) <==> bound.contains_key(
            other.key,
        ),
        bound.contains_key(other.key) ==> bind_bitmap(bound, bitmap, smoothing)[other.key]
            == bound[other.key],
{
}

/// Where bitmaps with the same key have the same size, every binding that is made for
/// a list has the size of all bitmaps with its key, at any depth.
pub proof fn bindings_have_the_size_of_their_bitmaps(
    cmds: Seq<Command>,
    bound: Map<usize, BitmapBinding>,
    sizes: BitmapSizes,
)
    requires
        bindings_sized(bound, sizes),
        all_sized(cmds, sizes),
    ensures
        bindings_sized(bind_list(cmds, bound), sizes),
    decreases cmds,
{
    if cmds.len() > 0 {
        bindings_have_the_size_of_their_bitmaps(cmds.drop_last(), bound, sizes);
        lemma_command_binds_sized(cmds.last(), bind_list(cmds.drop_last(), bound), sizes);
    }
}

proof fn lemma_command_binds_sized(
    cmd: Command,
    bound: Map<usize, BitmapBinding>,
    sizes: BitmapSizes,
)
    requires
        bindings_sized(bound, sizes),
        command_sized(cmd, sizes),
    ensures
        bindings_sized(bind_command(cmd, bound), sizes),
    decreases cmd,
{
    match cmd {
        Command::Blend(sub, _) => {
            bindings_have_the_size_of_their_bitmaps(sub.commands@, bound, sizes);
        },
        Command::RenderAlphaMask { maskee_commands, mask_commands } => {
            bindings_have_the_size_of_their_bitmaps(maskee_commands.commands@, bound, sizes);
            bindings_have_the_size_of_their_bitmaps(
                mask_commands.commands@,
                bind_list(maskee_commands.commands@, bound),
                sizes,
            );
        },
        _ => {},
    }
}

/// Collecting never changes or drops a binding.
pub proof fn bindings_are_kept(cmds: Seq<Command>, bound: Map<usize, BitmapBinding>)
    ensures
        extends(bound, bind_list(cmds, bound)),
    decreases cmds,
{
    if cmds.len() > 0 {
        bindings_are_kept(cmds.drop_last(), bound);
        lemma_command_keeps(cmds.last(), bind_list(cmds.drop_last(), bound));
    }
}

proof fn lemma_command_keeps(cmd: Command, bound: Map<usize, BitmapBinding>)
    ensures
        extends(bound, bind_command(cmd, bound)),
    decreases cmd,
{
    match cmd {
        Command::Blend(sub, _) => {
            bindings_are_kept(sub.commands@, bound);
        },
        Command::RenderAlphaMask { maskee_commands, mask_commands } => {
            bindings_are_kept(maskee_commands.commands@, bound);
            bindings_are_kept(mask_commands.commands@, bind_list(maskee_commands.commands@, bound));
        },
        _ => {},
    }
}

proof fn lemma_bound_grows(
    cmds: Seq<Command>,
    small: Map<usize, BitmapBinding>,
    large: Map<usize, BitmapBinding>,
)
    requires
        all_bound(cmds, small),
        extends(small, large),
    ensures
        all_bound(cmds, large),
    decreases cmds,
{
    if cmds.len() > 0 {
        lemma_bound_grows(cmds.drop_last(), small, large);
        lemma_command_bound_grows(cmds.last(), small, large);
    }
}

proof fn lemma_command_bound_grows(
    cmd: Command,
    small: Map<usize, BitmapBinding>,
    large: Map<usize, BitmapBinding>,
)
    requires
        command_bound(cmd, small),
        extends(small, large),
    ensures
        command_bound(cmd, large),
    decreases cmd,
{
    match cmd {
        Command::RenderBitmap { bitmap, .. } => {
            assert(small.contains_key(bitmap.key));
        },
        Command::Blend(sub, _) => {
            lemma_bound_grows(sub.commands@, small, large);
        },
        Command::RenderAlphaMask { maskee_commands, mask_commands } => {
            lemma_bound_grows(maskee_commands.commands@, small, large);
            lemma_bound_grows(mask_commands.commands@, small, large);
        },
        _ => {},
    }
}

/// After collecting from a list, every bitmap that the list draws, at any depth,
/// is bound.
pub proof fn collecting_binds_all(cmds: Seq<Command>, bound: Map<usize, BitmapBinding>)
    ensures
        all_bound(cmds, bind_list(cmds, bound)),
    decreases cmds,
{
    if cmds.len() > 0 {
        let mid = bind_list(cmds.drop_last(), bound);
        collecting_binds_all(cmds.drop_last(), bound);
        lemma_command_keeps(cmds.last(), mid);
        lemma_bound_grows(cmds.drop_last(), mid, bind_list(cmds, bound));
        lemma_collecting_binds_command(cmds.last(), mid);
    }
}

proof fn lemma_collecting_binds_command(cmd: Command, bound: Map<usize, BitmapBinding>)
    ensures
        command_bound(cmd, bind_command(cmd, bound)),
    decreases cmd,
{
    match cmd {
        Command::Blend(sub, _) => {
            collecting_binds_all(sub.commands@, bound);
        },
        Command::RenderAlphaMask { maskee_commands, mask_commands } => {
            let mid = bind_list(maskee_commands.commands@, bound);
            collecting_binds_all(maskee_commands.commands@, bound);
            bindings_are_kept(mask_commands.commands@, mid);
            lemma_bound_grows(maskee_commands.commands@, mid, bind_command(cmd, bound));
            collecting_binds_all(mask_commands.commands@, mid);
        },
        _ => {},
    }
}

/// Collecting from a list whose bitmaps are all bound changes nothing, so
/// collecting twice is the same as collecting once.
pub proof fn collecting_again_changes_nothing(cmds: Seq<Command>, bound: Map<usize, BitmapBinding>)
    requires
        all_bound(cmds, bound),
    ensures
        bind_list(cmds, bound) == bound,
    decreases cmds,
{
    if cmds.len() > 0 {
        collecting_again_changes_nothing(cmds.drop_last(), bound);
        lemma_command_again(cmds.last(), bound);
    }
}

proof fn lemma_command_again(cmd: Command, bound: Map<usize, BitmapBinding>)
    requires
        command_bound(cmd, bound),
    ensures
        bind_command(cmd, bound) == bound,
    decreases cmd,
{
    match cmd {
        Command::Blend(sub, _) => {
            collecting_again_changes_nothing(sub.commands@, bound);
        },
        Command::RenderAlphaMask { maskee_commands, mask_commands } => {
            collecting_again_changes_nothing(maskee_commands.commands@, bound);
            collecting_again_changes_nothing(mask_commands.commands@, bound);
        },
        _ => {},
    }
}

/// Binding a list binds its bitmaps in order, each with its own size and smoothing, unless its key
/// is bound already: two lists in a row are bound one after the other, blends bind their content,
/// and alpha masks bind what they show before what they mask it with.
pub proof fn bitmaps_are_bound_in_order(
    a: Seq<Command>,
    b: Seq<Command>,
    bound: Map<usize, BitmapBinding>,
)
    ensures
        bind_list(a + b, bound) == bind_list(b, bind_list(a, bound)),
        b.len() == 0 ==> bind_list(b, bound) == bound,
        b.len() == 1 ==> match b[0] {
            Command::RenderBitmap { bitmap, smoothing, .. } => {
                let after = bind_list(b, bound);
                &&& bound.contains_key(bitmap.key) ==> after == bound
                &&& !bound.contains_key(bitmap.key) ==> after == bound.insert(
                    bitmap.key,
                    BitmapBinding { width: bitmap.width, height: bitmap.height, smoothing },
                )
            },
            Command::Blend(sub, _) => bind_list(b, bound) == bind_list(sub.commands@, bound),
            Command::RenderAlphaMask { maskee_commands, mask_commands } => bind_list(b, bound)
                == bind_list(
                mask_commands.commands@,
                bind_list(maskee_commands.commands@, bound),
            ),
            _ => bind_list(b, bound) == bound,
        },
    decreases b.len(),
{
    if b.len() == 0 {
        assert(a + b == a);
    } else {
        let init = b.drop_last();
        bitmaps_are_bound_in_order(a, init, bound);
        assert((a + b).drop_last() == a + init);
        assert((a + b).last() == b.last());
        if b.len() == 1 {
            assert(init == Seq::<Command>::empty());
            assert(b.last() == b[0]);
            assert(bind_list(init, bound) == bound);
            assert(bind_list(b, bound) == bind_command(b[0], bound));
        }
    }
}

} // verus!
