//! Commands: their fields, their control data and their frames.

use crate::decimal::{decimal, digits, lemma_digits_shape, push_decimal};
use crate::text::{is_ascii_bytes, text_of};
use crate::types::{
    Action, AnimationControl, Compression, CursorPolicy, DeleteTarget, FrameComposition,
    ImageFormat, TransmissionMedium, UnicodePlaceholder,
};
use vstd::prelude::*;

verus! {

/// The fields of a command, each of them optional. A setter takes the
/// builder and gives it back with its fields set; `build` makes the command.
#[derive(Debug, Clone)]
pub struct CommandBuilder {
    /// What the terminal is asked to do.
    pub action: Option<Action>,
    /// How the pixels of the payload are laid out.
    pub format: Option<ImageFormat>,
    /// Where the terminal finds the image data.
    pub medium: Option<TransmissionMedium>,
    /// The image's width in pixels.
    pub width: Option<u32>,
    /// The image's height in pixels.
    pub height: Option<u32>,
    /// The image's id. It goes before the image number.
    pub image_id: Option<u32>,
    /// The image's number, sent only where no id is set.
    pub image_number: Option<u32>,
    /// The placement's id.
    pub placement_id: Option<u32>,
    /// Whether more chunks of the payload follow.
    pub more_data: Option<bool>,
    /// How the payload is compressed.
    pub compression: Option<Compression>,
    /// How much the terminal keeps to itself: 1 no success, 2 nothing.
    pub quiet: Option<u8>,
    /// The left edge of the part of the image that is shown.
    pub source_x: Option<u32>,
    /// The top edge of the part of the image that is shown.
    pub source_y: Option<u32>,
    /// The width of the part of the image that is shown.
    pub source_width: Option<u32>,
    /// The height of the part of the image that is shown.
    pub source_height: Option<u32>,
    /// The horizontal offset within the first cell, in pixels.
    pub cell_offset_x: Option<u32>,
    /// The vertical offset within the first cell, in pixels.
    pub cell_offset_y: Option<u32>,
    /// The number of columns that the image is shown on.
    pub columns: Option<u32>,
    /// The number of rows that the image is shown on.
    pub rows: Option<u32>,
    /// The image's place in the stacking order.
    pub z_index: Option<i32>,
    /// What happens to the cursor after placing.
    pub cursor_policy: Option<CursorPolicy>,
    /// What a delete command removes.
    pub delete_target: Option<DeleteTarget>,
    /// The name of a file or of a shared memory object.
    pub path: Option<String>,
    /// The number of bytes to read from the file.
    pub data_size: Option<usize>,
    /// The offset in the file at which to start reading.
    pub data_offset: Option<usize>,
    /// The size of a placeholder made of Unicode cells.
    pub unicode_placeholder: Option<UnicodePlaceholder>,
    /// The image that a relative placement is tied to.
    pub parent_image_id: Option<u32>,
    /// The placement that a relative placement is tied to.
    pub parent_placement_id: Option<u32>,
    /// The horizontal offset from the parent, in cells.
    pub relative_h_offset: Option<i32>,
    /// The vertical offset from the parent, in cells.
    pub relative_v_offset: Option<i32>,
    /// The state that the animation is put into.
    pub animation_control: Option<AnimationControl>,
    /// The frame that the command speaks of.
    pub frame_number: Option<u32>,
    /// The time before the next frame, in milliseconds.
    pub frame_gap: Option<i32>,
    /// How often the animation runs.
    pub loop_count: Option<u32>,
    /// The colour under a frame, as RGBA.
    pub background_color: Option<u32>,
    /// The frame that a composition starts from.
    pub ref_frame: Option<u32>,
    /// The parameters of a frame composition.
    pub composition: Option<FrameComposition>,
}

impl CommandBuilder {
    /// The builder with no field set.
    pub open spec fn empty() -> CommandBuilder {
        CommandBuilder {
            action: None,
            format: None,
            medium: None,
            width: None,
            height: None,
            image_id: None,
            image_number: None,
            placement_id: None,
            more_data: None,
            compression: None,
            quiet: None,
            source_x: None,
            source_y: None,
            source_width: None,
            source_height: None,
            cell_offset_x: None,
            cell_offset_y: None,
            columns: None,
            rows: None,
            z_index: None,
            cursor_policy: None,
            delete_target: None,
            path: None,
            data_size: None,
            data_offset: None,
            unicode_placeholder: None,
            parent_image_id: None,
            parent_placement_id: None,
            relative_h_offset: None,
            relative_v_offset: None,
            animation_control: None,
            frame_number: None,
            frame_gap: None,
            loop_count: None,
            background_color: None,
            ref_frame: None,
            composition: None,
        }
    }

    /// A builder with no field set.
    pub fn new() -> (b: CommandBuilder)
        ensures
            b == CommandBuilder::empty(),
    {
        CommandBuilder {
            action: None,
            format: None,
            medium: None,
            width: None,
            height: None,
            image_id: None,
            image_number: None,
            placement_id: None,
            more_data: None,
            compression: None,
            quiet: None,
            source_x: None,
            source_y: None,
            source_width: None,
            source_height: None,
            cell_offset_x: None,
            cell_offset_y: None,
            columns: None,
            rows: None,
            z_index: None,
            cursor_policy: None,
            delete_target: None,
            path: None,
            data_size: None,
            data_offset: None,
            unicode_placeholder: None,
            parent_image_id: None,
            parent_placement_id: None,
            relative_h_offset: None,
            relative_v_offset: None,
            animation_control: None,
            frame_number: None,
            frame_gap: None,
            loop_count: None,
            background_color: None,
            ref_frame: None,
            composition: None,
        }
    }

    /// Sets the action.
    pub fn action(self, action: Action) -> (b: CommandBuilder)
        ensures
            b == (CommandBuilder { action: Some(action), ..self }),
    {
        let mut b = self;
        b.action = Some(action);
        b
    }

    /// Sets the format of the pixels.
    pub fn format(self, format: ImageFormat) -> (b: CommandBuilder)
        ensures
            b == (CommandBuilder { format: Some(format), ..self }),
    {
        let mut b = self;
        b.format = Some(format);
        b
    }

    /// Sets the transmission medium.
    pub fn medium(self, medium: TransmissionMedium) -> (b: CommandBuilder)
        ensures
            b == (CommandBuilder { medium: Some(medium), ..self }),
    {
        let mut b = self;
        b.medium = Some(medium);
        b
    }

    /// Sets the image's width and height in pixels.
    pub fn dimensions(self, width: u32, height: u32) -> (b: CommandBuilder)
        ensures
            b == (CommandBuilder { width: Some(width), height: Some(height), ..self }),
    {
        let mut b = self;
        b.width = Some(width);
        b.height = Some(height);
        b
    }

    /// Sets the image id.
    pub fn image_id(self, id: u32) -> (b: CommandBuilder)
        ensures
            b == (CommandBuilder { image_id: Some(id), ..self }),
    {
        let mut b = self;
        b.image_id = Some(id);
        b
    }

    /// Sets the image number.
    pub fn image_number(self, number: u32) -> (b: CommandBuilder)
        ensures
            b == (CommandBuilder { image_number: Some(number), ..self }),
    {
        let mut b = self;
        b.image_number = Some(number);
        b
    }

    /// Sets the placement id.
    pub fn placement_id(self, id: u32) -> (b: CommandBuilder)
        ensures
            b == (CommandBuilder { placement_id: Some(id), ..self }),
    {
        let mut b = self;
        b.placement_id = Some(id);
        b
    }

    /// Says whether more chunks follow.
    pub fn more_data(self, more: bool) -> (b: CommandBuilder)
        ensures
            b == (CommandBuilder { more_data: Some(more), ..self }),
    {
        let mut b = self;
        b.more_data = Some(more);
        b
    }

    /// Sets the compression.
    pub fn compression(self, compression: Compression) -> (b: CommandBuilder)
        ensures
            b == (CommandBuilder { compression: Some(compression), ..self }),
    {
        let mut b = self;
        b.compression = Some(compression);
        b
    }

    /// Sets how much the terminal keeps to itself.
    pub fn quiet(self, mode: u8) -> (b: CommandBuilder)
        ensures
            b == (CommandBuilder { quiet: Some(mode), ..self }),
    {
        let mut b = self;
        b.quiet = Some(mode);
        b
    }

    /// Sets the part of the image that is shown.
    pub fn source_rect(self, x: u32, y: u32, width: u32, height: u32) -> (b: CommandBuilder)
        ensures
            b == (CommandBuilder { source_x: Some(x), source_y: Some(y), source_width: Some(width), source_height: Some(height), ..self }),
    {
        let mut b = self;
        b.source_x = Some(x);
        b.source_y = Some(y);
        b.source_width = Some(width);
        b.source_height = Some(height);
        b
    }

    /// Sets the offset within the first cell.
    pub fn cell_offset(self, x: u32, y: u32) -> (b: CommandBuilder)
        ensures
            b == (CommandBuilder { cell_offset_x: Some(x), cell_offset_y: Some(y), ..self }),
    {
        let mut b = self;
        b.cell_offset_x = Some(x);
        b.cell_offset_y = Some(y);
        b
    }

    /// Sets the columns and rows that the image is shown on.
    pub fn display_area(self, columns: u32, rows: u32) -> (b: CommandBuilder)
        ensures
            b == (CommandBuilder { columns: Some(columns), rows: Some(rows), ..self }),
    {
        let mut b = self;
        b.columns = Some(columns);
        b.rows = Some(rows);
        b
    }

    /// Sets the place in the stacking order.
    pub fn z_index(self, z: i32) -> (b: CommandBuilder)
        ensures
            b == (CommandBuilder { z_index: Some(z), ..self }),
    {
        let mut b = self;
        b.z_index = Some(z);
        b
    }

    /// Sets what happens to the cursor.
    pub fn cursor_policy(self, policy: CursorPolicy) -> (b: CommandBuilder)
        ensures
            b == (CommandBuilder { cursor_policy: Some(policy), ..self }),
    {
        let mut b = self;
        b.cursor_policy = Some(policy);
        b
    }

    /// Sets what a delete command removes.
    pub fn delete_target(self, target: DeleteTarget) -> (b: CommandBuilder)
        ensures
            b == (CommandBuilder { delete_target: Some(target), ..self }),
    {
        let mut b = self;
        b.delete_target = Some(target);
        b
    }

    /// Sets the name of the file or of the shared memory object.
    pub fn path(self, path: &str) -> (b: CommandBuilder)
        ensures
            b.path matches Some(p) && p@ == path@,
            b == (CommandBuilder { path: b.path, ..self }),
    {
        let mut b = self;
        b.path = Some(path.to_owned());
        b
    }

    /// Sets the size and the offset of the data in the file.
    pub fn data_range(self, size: usize, offset: usize) -> (b: CommandBuilder)
        ensures
            b == (CommandBuilder { data_size: Some(size), data_offset: Some(offset), ..self }),
    {
        let mut b = self;
        b.data_size = Some(size);
        b.data_offset = Some(offset);
        b
    }

    /// Asks for a placeholder of the given size.
    pub fn unicode_placeholder(self, columns: u16, rows: u16) -> (b: CommandBuilder)
        ensures
            b == (CommandBuilder { unicode_placeholder: Some(UnicodePlaceholder { columns, rows }), ..self }),
    {
        let mut b = self;
        b.unicode_placeholder = Some(UnicodePlaceholder { columns, rows });
        b
    }

    /// Sets the parent of a relative placement.
    pub fn parent(self, image_id: u32, placement_id: u32) -> (b: CommandBuilder)
        ensures
            b == (CommandBuilder { parent_image_id: Some(image_id), parent_placement_id: Some(placement_id), ..self }),
    {
        let mut b = self;
        b.parent_image_id = Some(image_id);
        b.parent_placement_id = Some(placement_id);
        b
    }

    /// Sets the offset from the parent.
    pub fn relative_offset(self, h: i32, v: i32) -> (b: CommandBuilder)
        ensures
            b == (CommandBuilder { relative_h_offset: Some(h), relative_v_offset: Some(v), ..self }),
    {
        let mut b = self;
        b.relative_h_offset = Some(h);
        b.relative_v_offset = Some(v);
        b
    }

    /// Sets the state that the animation is put into.
    pub fn animation_control(self, control: AnimationControl) -> (b: CommandBuilder)
        ensures
            b == (CommandBuilder { animation_control: Some(control), ..self }),
    {
        let mut b = self;
        b.animation_control = Some(control);
        b
    }

    /// Sets the frame that the command speaks of.
    pub fn frame_number(self, frame: u32) -> (b: CommandBuilder)
        ensures
            b == (CommandBuilder { frame_number: Some(frame), ..self }),
    {
        let mut b = self;
        b.frame_number = Some(frame);
        b
    }

    /// Sets the time before the next frame, in milliseconds.
    pub fn frame_gap(self, gap_ms: i32) -> (b: CommandBuilder)
        ensures
            b == (CommandBuilder { frame_gap: Some(gap_ms), ..self }),
    {
        let mut b = self;
        b.frame_gap = Some(gap_ms);
        b
    }

    /// Sets how often the animation runs.
    pub fn loop_count(self, count: u32) -> (b: CommandBuilder)
        ensures
            b == (CommandBuilder { loop_count: Some(count), ..self }),
    {
        let mut b = self;
        b.loop_count = Some(count);
        b
    }

    /// Sets the colour under a frame.
    pub fn background_color(self, color: u32) -> (b: CommandBuilder)
        ensures
            b == (CommandBuilder { background_color: Some(color), ..self }),
    {
        let mut b = self;
        b.background_color = Some(color);
        b
    }

    /// Sets the frame that a composition starts from.
    pub fn ref_frame(self, frame: u32) -> (b: CommandBuilder)
        ensures
            b == (CommandBuilder { ref_frame: Some(frame), ..self }),
    {
        let mut b = self;
        b.ref_frame = Some(frame);
        b
    }

    /// Sets the parameters of a frame composition.
    pub fn composition(self, comp: FrameComposition) -> (b: CommandBuilder)
        ensures
            b == (CommandBuilder { composition: Some(comp), ..self }),
    {
        let mut b = self;
        b.composition = Some(comp);
        b
    }

    /// The command with the fields set so far.
    pub fn build(self) -> (c: Command)
        ensures
            c.fields() == self,
    {
        Command { inner: self }
    }
}

impl Default for CommandBuilder {
    fn default() -> (b: CommandBuilder)
        ensures
            b == CommandBuilder::empty(),
    {
        CommandBuilder::new()
    }
}

/// A command, ready to be framed. Its fields no longer change.
#[derive(Debug, Clone)]
pub struct Command {
    inner: CommandBuilder,
}

impl Command {
    /// The fields that the command was built from.
    pub closed spec fn fields(&self) -> CommandBuilder {
        self.inner
    }

    /// A builder with no field set.
    pub fn builder() -> (b: CommandBuilder)
        ensures
            b == CommandBuilder::empty(),
    {
        CommandBuilder::new()
    }
}

/// One field of the control data: its key, an equals sign and its value.
pub open spec fn field(key: char, value: Seq<u8>) -> Seq<u8> {
    seq![key as u8, '=' as u8] + value
}

/// The fields in their order, with a comma between each two.
pub open spec fn join(parts: Seq<Seq<u8>>) -> Seq<u8>
    decreases parts.len(),
{
    if parts.len() == 0 {
        Seq::empty()
    } else if parts.len() == 1 {
        parts[0]
    } else {
        join(parts.drop_last()) + seq![',' as u8] + parts.last()
    }
}

/// The list `parts` with one more field, where there is a value for it.
pub open spec fn put(parts: Seq<Seq<u8>>, key: char, value: Option<Seq<u8>>) -> Seq<Seq<u8>> {
    match value {
        Some(v) => parts.push(field(key, v)),
        None => parts,
    }
}

/// A value that is a single character.
pub open spec fn letter(c: Option<u8>) -> Option<Seq<u8>> {
    match c {
        Some(c) => Some(seq![c]),
        None => None,
    }
}

/// A value that is a number, written in decimal.
pub open spec fn number(n: Option<int>) -> Option<Seq<u8>> {
    match n {
        Some(n) => Some(decimal(n)),
        None => None,
    }
}

/// The number held in an optional `u32`.
pub open spec fn of_u32(v: Option<u32>) -> Option<int> {
    match v {
        Some(v) => Some(v as int),
        None => None,
    }
}

/// The number held in an optional `i32`.
pub open spec fn of_i32(v: Option<i32>) -> Option<int> {
    match v {
        Some(v) => Some(v as int),
        None => None,
    }
}

/// The number held in an optional `usize`.
pub open spec fn of_usize(v: Option<usize>) -> Option<int> {
    match v {
        Some(v) => Some(v as int),
        None => None,
    }
}

/// The list `p` with the fields that say what is transmitted and how.
pub open spec fn transmission_fields(c: CommandBuilder, p: Seq<Seq<u8>>) -> Seq<Seq<u8>> {
    let p = put(p, 'a', letter(match c.action { Some(a) => Some(a.wire()), None => None }));
    let p = put(p, 'f', number(match c.format { Some(f) => Some(f.wire() as int), None => None }));
    let p = put(p, 't', letter(match c.medium { Some(m) => Some(m.wire()), None => None }));
    let p = put(p, 's', number(of_u32(c.width)));
    let p = put(p, 'v', number(of_u32(c.height)));
    // The image number is sent only where there is no image id.
    let p = if c.image_id is Some {
        put(p, 'i', number(of_u32(c.image_id)))
    } else {
        put(p, 'I', number(of_u32(c.image_number)))
    };
    let p = put(p, 'p', number(of_u32(c.placement_id)));
    let p = put(p, 'm', number(match c.more_data {
        Some(more) => Some(if more { 1int } else { 0int }),
        None => None,
    }));
    let p = put(p, 'o', letter(match c.compression { Some(o) => Some(o.wire()), None => None }));
    let p = put(p, 'q', number(match c.quiet { Some(q) => Some(q as int), None => None }));
    p
}

/// The list `p` with the fields that say where and how an image is shown.
pub open spec fn placement_fields(c: CommandBuilder, p: Seq<Seq<u8>>) -> Seq<Seq<u8>> {
    let p = put(p, 'x', number(of_u32(c.source_x)));
    let p = put(p, 'y', number(of_u32(c.source_y)));
    let p = put(p, 'w', number(of_u32(c.source_width)));
    let p = put(p, 'h', number(of_u32(c.source_height)));
    let p = put(p, 'X', number(of_u32(c.cell_offset_x)));
    let p = put(p, 'Y', number(of_u32(c.cell_offset_y)));
    let p = put(p, 'c', number(of_u32(c.columns)));
    let p = put(p, 'r', number(of_u32(c.rows)));
    let p = put(p, 'z', number(of_i32(c.z_index)));
    // The default policy is what the terminal does anyway.
    let p = put(p, 'C', number(if c.cursor_policy == Some(CursorPolicy::NoMove) {
        Some(1int)
    } else {
        None
    }));
    p
}

/// The list `p` with the fields of deletion, of data in a file, of
/// placeholders and of relative placement.
pub open spec fn reference_fields(c: CommandBuilder, p: Seq<Seq<u8>>) -> Seq<Seq<u8>> {
    let p = put(p, 'd', letter(match c.delete_target {
        Some(d) => Some(d.wire() as u8),
        None => None,
    }));
    // The path is no control data: it travels in the place of the payload.
    let p = put(p, 'S', number(of_usize(c.data_size)));
    let p = put(p, 'O', number(of_usize(c.data_offset)));
    // Of a placeholder only its presence is sent.
    let p = put(p, 'U', number(if c.unicode_placeholder is Some { Some(1int) } else { None }));
    let p = put(p, 'P', number(of_u32(c.parent_image_id)));
    let p = put(p, 'Q', number(of_u32(c.parent_placement_id)));
    let p = put(p, 'H', number(of_i32(c.relative_h_offset)));
    let p = put(p, 'V', number(of_i32(c.relative_v_offset)));
    p
}

/// The list `p` with the fields of animation.
pub open spec fn animation_fields(c: CommandBuilder, p: Seq<Seq<u8>>) -> Seq<Seq<u8>> {
    let p = put(p, 's', number(match c.animation_control {
        Some(s) => Some(s.wire() as int),
        None => None,
    }));
    let p = put(p, 'c', number(of_u32(c.frame_number)));
    // A gap of zero and a loop count of zero are not sent.
    let p = put(p, 'z', number(if c.frame_gap != Some(0i32) { of_i32(c.frame_gap) } else { None }));
    let p = put(p, 'v', number(if c.loop_count != Some(0u32) { of_u32(c.loop_count) } else { None }));
    let p = put(p, 'Y', number(of_u32(c.background_color)));
    p
}

/// The fields that a command's control data consists of, in the order in
/// which they are sent. A field that is not set is not sent. Some keys are
/// used twice: `s` for the width and for the state of an animation, `v` for
/// the height and for the loop count, `c` for the columns and for the frame
/// number, `z` for the z-index and for the frame gap, `Y` for the vertical
/// cell offset and for the background colour. Where both uses are set, both
/// are sent, each at its place in the order.
pub open spec fn control_fields(c: CommandBuilder) -> Seq<Seq<u8>> {
    let p = transmission_fields(c, Seq::empty());
    let p = placement_fields(c, p);
    let p = reference_fields(c, p);
    animation_fields(c, p)
}

/// The control data of a command: its fields with commas between them.
pub open spec fn control_data(c: CommandBuilder) -> Seq<u8> {
    join(control_fields(c))
}

/// Whether `out` is the control data made of the fields `parts`, in ASCII.
#[verifier::opaque]
pub open spec fn renders(out: Seq<u8>, parts: Seq<Seq<u8>>) -> bool {
    &&& out == join(parts)
    &&& is_ascii_bytes(out)
    &&& (out.len() == 0 <==> parts.len() == 0)
}

/// Whether `key` is an ASCII character.
pub open spec fn is_key(key: char) -> bool {
    key as u32 <= 127
}

/// Appends what comes before the value of one more field: a comma unless
/// the field is the first, the key and an equals sign.
fn open_field(out: &mut Vec<u8>, key: char, Ghost(parts): Ghost<Seq<Seq<u8>>>)
    requires
        renders(old(out)@, parts),
        is_key(key),
    ensures
        final(out)@ == (if parts.len() == 0 {
            Seq::<u8>::empty()
        } else {
            join(parts) + seq![',' as u8]
        }) + seq![key as u8, '=' as u8],
        is_ascii_bytes(final(out)@),
{
    reveal(renders);
    if out.len() > 0 {
        out.push(',' as u8);
    }
    out.push(key as u8);
    out.push('=' as u8);
    assert(final(out)@ =~= (if parts.len() == 0 {
        Seq::<u8>::empty()
    } else {
        join(parts) + seq![',' as u8]
    }) + seq![key as u8, '=' as u8]);
}

/// A list with one more field is rendered by what renders the list, a comma
/// unless the field is the first, and the field.
pub proof fn lemma_join_push(parts: Seq<Seq<u8>>, f: Seq<u8>)
    ensures
        join(parts.push(f)) == if parts.len() == 0 {
            f
        } else {
            join(parts) + seq![',' as u8] + f
        },
{
    assert(parts.push(f).drop_last() =~= parts);
}

/// Appends a field whose value is a single character, where there is one.
fn emit_letter(out: &mut Vec<u8>, key: char, value: Option<u8>, Ghost(parts): Ghost<Seq<Seq<u8>>>)
    requires
        renders(old(out)@, parts),
        is_key(key),
        value matches Some(c) ==> c < 128,
    ensures
        renders(final(out)@, put(parts, key, letter(value))),
{
    reveal(renders);
    if let Some(c) = value {
        open_field(out, key, Ghost(parts));
        out.push(c);
        proof {
            lemma_join_push(parts, field(key, seq![c]));
            assert(final(out)@ =~= join(parts.push(field(key, seq![c]))));
        }
    }
}

/// Appends a field whose value is an unsigned number, where there is one.
fn emit_unsigned(
    out: &mut Vec<u8>,
    key: char,
    value: Option<u64>,
    Ghost(parts): Ghost<Seq<Seq<u8>>>,
)
    requires
        renders(old(out)@, parts),
        is_key(key),
    ensures
        renders(
            final(out)@,
            put(parts, key, number(match value { Some(n) => Some(n as int), None => None })),
        ),
{
    reveal(renders);
    if let Some(n) = value {
        open_field(out, key, Ghost(parts));
        let ghost before = out@;
        crate::decimal::push_digits(out, n);
        proof {
            lemma_digits_shape(n as nat);
            crate::text::lemma_ascii_concat(before, digits(n as nat));
            lemma_join_push(parts, field(key, decimal(n as int)));
            assert(final(out)@ =~= join(parts.push(field(key, decimal(n as int)))));
        }
    }
}

/// Appends a field whose value is a signed number, where there is one.
fn emit_signed(
    out: &mut Vec<u8>,
    key: char,
    value: Option<i64>,
    Ghost(parts): Ghost<Seq<Seq<u8>>>,
)
    requires
        renders(old(out)@, parts),
        is_key(key),
    ensures
        renders(
            final(out)@,
            put(parts, key, number(match value { Some(n) => Some(n as int), None => None })),
        ),
{
    reveal(renders);
    if let Some(n) = value {
        open_field(out, key, Ghost(parts));
        let ghost before = out@;
        push_decimal(out, n);
        proof {
            lemma_decimal_ascii(n as int);
            crate::text::lemma_ascii_concat(before, decimal(n as int));
            lemma_join_push(parts, field(key, decimal(n as int)));
            assert(final(out)@ =~= join(parts.push(field(key, decimal(n as int)))));
        }
    }
}

/// A number is written in ASCII, with at least one character.
pub proof fn lemma_decimal_ascii(n: int)
    ensures
        is_ascii_bytes(decimal(n)),
        decimal(n).len() >= 1,
{
    if n < 0 {
        lemma_digits_shape((-n) as nat);
        crate::text::lemma_ascii_concat(seq!['-' as u8], digits((-n) as nat));
    } else {
        lemma_digits_shape(n as nat);
    }
}

/// An optional `u32` as an optional `u64`.
fn widen_u32(v: Option<u32>) -> (r: Option<u64>)
    ensures
        (match r { Some(n) => Some(n as int), None => None }) == of_u32(v),
{
    match v {
        Some(n) => Some(n as u64),
        None => None,
    }
}

/// An optional `i32` as an optional `i64`.
fn widen_i32(v: Option<i32>) -> (r: Option<i64>)
    ensures
        (match r { Some(n) => Some(n as int), None => None }) == of_i32(v),
{
    match v {
        Some(n) => Some(n as i64),
        None => None,
    }
}

/// An optional `usize` as an optional `u64`.
fn widen_usize(v: Option<usize>) -> (r: Option<u64>)
    ensures
        (match r { Some(n) => Some(n as int), None => None }) == of_usize(v),
{
    match v {
        Some(n) => Some(n as u64),
        None => None,
    }
}

/// Appends the fields that say what is transmitted and how.
fn emit_transmission_fields(out: &mut Vec<u8>, c: &CommandBuilder, Ghost(parts): Ghost<Seq<Seq<u8>>>)
    requires
        renders(old(out)@, parts),
    ensures
        renders(final(out)@, transmission_fields(*c, parts)),
{
    let ghost mut p = parts;
    let action: Option<u8> = match c.action {
        Some(a) => Some(a.code()),
        None => None,
    };
    emit_letter(out, 'a', action, Ghost(p));
    proof {
        p = put(p, 'a', letter(action));
    }
    let format: Option<u64> = match c.format {
        Some(f) => Some(f.code() as u64),
        None => None,
    };
    emit_unsigned(out, 'f', format, Ghost(p));
    proof {
        p = put(p, 'f', number(match c.format { Some(f) => Some(f.wire() as int), None => None }));
    }
    let medium: Option<u8> = match c.medium {
        Some(m) => Some(m.code()),
        None => None,
    };
    emit_letter(out, 't', medium, Ghost(p));
    proof {
        p = put(p, 't', letter(medium));
    }
    emit_unsigned(out, 's', widen_u32(c.width), Ghost(p));
    proof {
        p = put(p, 's', number(of_u32(c.width)));
    }
    emit_unsigned(out, 'v', widen_u32(c.height), Ghost(p));
    proof {
        p = put(p, 'v', number(of_u32(c.height)));
    }
    if c.image_id.is_some() {
        emit_unsigned(out, 'i', widen_u32(c.image_id), Ghost(p));
        proof {
            p = put(p, 'i', number(of_u32(c.image_id)));
        }
    } else {
        emit_unsigned(out, 'I', widen_u32(c.image_number), Ghost(p));
        proof {
            p = put(p, 'I', number(of_u32(c.image_number)));
        }
    }
    emit_unsigned(out, 'p', widen_u32(c.placement_id), Ghost(p));
    proof {
        p = put(p, 'p', number(of_u32(c.placement_id)));
    }
    let more: Option<u64> = match c.more_data {
        Some(more) => Some(if more { 1 } else { 0 }),
        None => None,
    };
    emit_unsigned(out, 'm', more, Ghost(p));
    proof {
        p = put(p, 'm', number(match c.more_data {
            Some(more) => Some(if more { 1int } else { 0int }),
            None => None,
        }));
    }
    let compression: Option<u8> = match c.compression {
        Some(o) => Some(o.code()),
        None => None,
    };
    emit_letter(out, 'o', compression, Ghost(p));
    proof {
        p = put(p, 'o', letter(compression));
    }
    let quiet: Option<u64> = match c.quiet {
        Some(q) => Some(q as u64),
        None => None,
    };
    emit_unsigned(out, 'q', quiet, Ghost(p));
    proof {
        p = put(p, 'q', number(match c.quiet { Some(q) => Some(q as int), None => None }));
    }
}

/// Appends the fields that say where and how an image is shown.
fn emit_placement_fields(out: &mut Vec<u8>, c: &CommandBuilder, Ghost(parts): Ghost<Seq<Seq<u8>>>)
    requires
        renders(old(out)@, parts),
    ensures
        renders(final(out)@, placement_fields(*c, parts)),
{
    let ghost mut p = parts;
    emit_unsigned(out, 'x', widen_u32(c.source_x), Ghost(p));
    proof {
        p = put(p, 'x', number(of_u32(c.source_x)));
    }
    emit_unsigned(out, 'y', widen_u32(c.source_y), Ghost(p));
    proof {
        p = put(p, 'y', number(of_u32(c.source_y)));
    }
    emit_unsigned(out, 'w', widen_u32(c.source_width), Ghost(p));
    proof {
        p = put(p, 'w', number(of_u32(c.source_width)));
    }
    emit_unsigned(out, 'h', widen_u32(c.source_height), Ghost(p));
    proof {
        p = put(p, 'h', number(of_u32(c.source_height)));
    }
    emit_unsigned(out, 'X', widen_u32(c.cell_offset_x), Ghost(p));
    proof {
        p = put(p, 'X', number(of_u32(c.cell_offset_x)));
    }
    emit_unsigned(out, 'Y', widen_u32(c.cell_offset_y), Ghost(p));
    proof {
        p = put(p, 'Y', number(of_u32(c.cell_offset_y)));
    }
    emit_unsigned(out, 'c', widen_u32(c.columns), Ghost(p));
    proof {
        p = put(p, 'c', number(of_u32(c.columns)));
    }
    emit_unsigned(out, 'r', widen_u32(c.rows), Ghost(p));
    proof {
        p = put(p, 'r', number(of_u32(c.rows)));
    }
    emit_signed(out, 'z', widen_i32(c.z_index), Ghost(p));
    proof {
        p = put(p, 'z', number(of_i32(c.z_index)));
    }
    let no_move: Option<u64> = match c.cursor_policy {
        Some(CursorPolicy::NoMove) => Some(1),
        _ => None,
    };
    emit_unsigned(out, 'C', no_move, Ghost(p));
    proof {
        p = put(p, 'C', number(if c.cursor_policy == Some(CursorPolicy::NoMove) {
            Some(1int)
        } else {
            None
        }));
    }
}

/// Appends the fields of deletion, of data in a file, of placeholders and of
/// relative placement.
fn emit_reference_fields(out: &mut Vec<u8>, c: &CommandBuilder, Ghost(parts): Ghost<Seq<Seq<u8>>>)
    requires
        renders(old(out)@, parts),
    ensures
        renders(final(out)@, reference_fields(*c, parts)),
{
    let ghost mut p = parts;
    let target: Option<u8> = match c.delete_target {
        Some(d) => Some(d.code() as u8),
        None => None,
    };
    emit_letter(out, 'd', target, Ghost(p));
    proof {
        p = put(p, 'd', letter(target));
    }
    emit_unsigned(out, 'S', widen_usize(c.data_size), Ghost(p));
    proof {
        p = put(p, 'S', number(of_usize(c.data_size)));
    }
    emit_unsigned(out, 'O', widen_usize(c.data_offset), Ghost(p));
    proof {
        p = put(p, 'O', number(of_usize(c.data_offset)));
    }
    let placeholder: Option<u64> = if c.unicode_placeholder.is_some() {
        Some(1)
    } else {
        None
    };
    emit_unsigned(out, 'U', placeholder, Ghost(p));
    proof {
        p = put(p, 'U', number(if c.unicode_placeholder is Some { Some(1int) } else { None }));
    }
    emit_unsigned(out, 'P', widen_u32(c.parent_image_id), Ghost(p));
    proof {
        p = put(p, 'P', number(of_u32(c.parent_image_id)));
    }
    emit_unsigned(out, 'Q', widen_u32(c.parent_placement_id), Ghost(p));
    proof {
        p = put(p, 'Q', number(of_u32(c.parent_placement_id)));
    }
    emit_signed(out, 'H', widen_i32(c.relative_h_offset), Ghost(p));
    proof {
        p = put(p, 'H', number(of_i32(c.relative_h_offset)));
    }
    emit_signed(out, 'V', widen_i32(c.relative_v_offset), Ghost(p));
    proof {
        p = put(p, 'V', number(of_i32(c.relative_v_offset)));
    }
}

/// Appends the fields of animation.
fn emit_animation_fields(out: &mut Vec<u8>, c: &CommandBuilder, Ghost(parts): Ghost<Seq<Seq<u8>>>)
    requires
        renders(old(out)@, parts),
    ensures
        renders(final(out)@, animation_fields(*c, parts)),
{
    let ghost mut p = parts;
    let state: Option<u64> = match c.animation_control {
        Some(s) => Some(s.code() as u64),
        None => None,
    };
    emit_unsigned(out, 's', state, Ghost(p));
    proof {
        p = put(p, 's', number(match c.animation_control {
            Some(s) => Some(s.wire() as int),
            None => None,
        }));
    }
    emit_unsigned(out, 'c', widen_u32(c.frame_number), Ghost(p));
    proof {
        p = put(p, 'c', number(of_u32(c.frame_number)));
    }
    let gap: Option<i64> = match c.frame_gap {
        Some(g) => if g != 0 { Some(g as i64) } else { None },
        None => None,
    };
    emit_signed(out, 'z', gap, Ghost(p));
    proof {
        p = put(p, 'z', number(if c.frame_gap != Some(0i32) { of_i32(c.frame_gap) } else { None }));
    }
    let loops: Option<u64> = match c.loop_count {
        Some(n) => if n > 0 { Some(n as u64) } else { None },
        None => None,
    };
    emit_unsigned(out, 'v', loops, Ghost(p));
    proof {
        p = put(p, 'v', number(if c.loop_count != Some(0u32) { of_u32(c.loop_count) } else { None }));
    }
    emit_unsigned(out, 'Y', widen_u32(c.background_color), Ghost(p));
    proof {
        p = put(p, 'Y', number(of_u32(c.background_color)));
    }
}

impl Command {
    /// The control data of the command, as bytes.
    pub fn control_bytes(&self) -> (out: Vec<u8>)
        ensures
            out@ == control_data(self.fields()),
            is_ascii_bytes(out@),
    {
        let c = &self.inner;
        let mut out: Vec<u8> = Vec::new();
        let ghost none = Seq::<Seq<u8>>::empty();
        assert(renders(out@, none)) by {
            reveal(renders);
        }
        emit_transmission_fields(&mut out, c, Ghost(none));
        let ghost sent = transmission_fields(*c, none);
        emit_placement_fields(&mut out, c, Ghost(sent));
        let ghost placed = placement_fields(*c, sent);
        emit_reference_fields(&mut out, c, Ghost(placed));
        let ghost referred = reference_fields(*c, placed);
        emit_animation_fields(&mut out, c, Ghost(referred));
        proof {
            reveal(renders);
        }
        out
    }

    /// The bytes of the path, where one is set.
    pub(crate) fn path_bytes(&self) -> (r: Option<&[u8]>)
        ensures
            match self.fields().path {
                Some(p) => r matches Some(b) && b@ == vstd::utf8::encode_utf8(p@),
                None => r is None,
            },
    {
        match &self.inner.path {
            Some(path) => Some(path.as_str().as_bytes()),
            None => None,
        }
    }

    /// The control data of the command, as text: its fields as `key=value`,
    /// in their fixed order, with commas between them.
    pub fn build_control_data(&self) -> (s: String)
        ensures
            s@ == text_of(control_data(self.fields())),
    {
        match crate::text::ascii_string(self.control_bytes()) {
            Ok(s) => s,
            Err(_) => String::new(),
        }
    }
}

impl Command {
    /// The command that asks whether the protocol is supported.
    pub fn query_support() -> (c: Command)
        ensures
            c.fields() == (CommandBuilder {
                action: Some(Action::Query),
                quiet: Some(2u8),
                ..CommandBuilder::empty()
            }),
    {
        Command::builder().action(Action::Query).quiet(2).build()
    }

    /// The command that deletes all visible placements.
    pub fn delete_all() -> (c: Command)
        ensures
            c.fields() == (CommandBuilder {
                action: Some(Action::Delete),
                delete_target: Some(DeleteTarget::All),
                ..CommandBuilder::empty()
            }),
    {
        Command::builder().action(Action::Delete).delete_target(DeleteTarget::All).build()
    }

    /// The command that deletes the image with the given id and frees its
    /// data.
    pub fn delete_by_id(image_id: u32) -> (c: Command)
        ensures
            c.fields() == (CommandBuilder {
                action: Some(Action::Delete),
                delete_target: Some(DeleteTarget::ById { free_data: true }),
                image_id: Some(image_id),
                ..CommandBuilder::empty()
            }),
    {
        Command::builder().action(Action::Delete).delete_target(
            DeleteTarget::ById { free_data: true },
        ).image_id(image_id).build()
    }

    /// The command that shows an image, transmitted before, on the given
    /// number of columns and rows.
    pub fn place(image_id: u32, columns: u32, rows: u32) -> (c: Command)
        ensures
            c.fields() == (CommandBuilder {
                action: Some(Action::Place),
                image_id: Some(image_id),
                columns: Some(columns),
                rows: Some(rows),
                ..CommandBuilder::empty()
            }),
    {
        Command::builder().action(Action::Place).image_id(image_id).display_area(
            columns,
            rows,
        ).build()
    }

    /// The command as it is shown: the word `Command` and, in parentheses,
    /// its control data.
    pub fn to_string(&self) -> (s: String)
        ensures
            s@ == text_of(shown(control_data(self.fields()))),
    {
        let control = self.control_bytes();
        let mut out: Vec<u8> = Vec::new();
        out.push('C' as u8);
        out.push('o' as u8);
        out.push('m' as u8);
        out.push('m' as u8);
        out.push('a' as u8);
        out.push('n' as u8);
        out.push('d' as u8);
        out.push('(' as u8);
        let mut i: usize = 0;
        while i < control.len()
            invariant
                i <= control.len(),
                out@ == shown_head() + control@.subrange(0, i as int),
            decreases control.len() - i,
        {
            out.push(control[i]);
            i = i + 1;
            assert(out@ =~= shown_head() + control@.subrange(0, i as int));
        }
        out.push(')' as u8);
        assert(control@.subrange(0, i as int) =~= control@);
        assert(out@ =~= shown(control@));
        match crate::text::ascii_string(out) {
            Ok(s) => s,
            Err(_) => String::new(),
        }
    }
}

/// The bytes of `Command(`.
pub open spec fn shown_head() -> Seq<u8> {
    seq![
        'C' as u8,
        'o' as u8,
        'm' as u8,
        'm' as u8,
        'a' as u8,
        'n' as u8,
        'd' as u8,
        '(' as u8,
    ]
}

/// How a command with the given control data is shown.
pub open spec fn shown(control: Seq<u8>) -> Seq<u8> {
    shown_head() + control + seq![')' as u8]
}

/// A command with only its action and its format set has the control data
/// `a=<action>,f=<format>`: the two fields in this order, one comma between
/// them, and nothing else.
pub proof fn lemma_action_and_format_only(action: Action, format: ImageFormat)
    ensures
        control_data(
            CommandBuilder { action: Some(action), format: Some(format), ..CommandBuilder::empty() },
        ) == seq!['a' as u8, '=' as u8, action.wire(), ',' as u8, 'f' as u8, '=' as u8] + decimal(
            format.wire() as int,
        ),
        decimal(ImageFormat::Rgb.wire() as int) == seq!['2' as u8, '4' as u8],
        decimal(ImageFormat::Rgba.wire() as int) == seq!['3' as u8, '2' as u8],
        decimal(ImageFormat::Png.wire() as int) == seq!['1' as u8, '0' as u8, '0' as u8],
{
    let c = CommandBuilder { action: Some(action), format: Some(format), ..CommandBuilder::empty() };
    let a = field('a', seq![action.wire()]);
    let f = field('f', decimal(format.wire() as int));
    assert(control_fields(c) =~= seq![a, f]);
    assert(seq![a, f] =~= seq![a].push(f));
    lemma_join_push(seq![a], f);
    assert(join(seq![a, f]) =~= a + seq![',' as u8] + f);
    assert(control_data(c) =~= seq![
        'a' as u8,
        '=' as u8,
        action.wire(),
        ',' as u8,
        'f' as u8,
        '=' as u8,
    ] + decimal(format.wire() as int));
    reveal_with_fuel(digits, 3);
    assert(decimal(24) =~= seq!['2' as u8, '4' as u8]);
    assert(decimal(32) =~= seq!['3' as u8, '2' as u8]);
    assert(decimal(100) =~= seq!['1' as u8, '0' as u8, '0' as u8]);
}

/// Where the image id is set, the image number is not sent: the control
/// data is what it would be without the image number.
pub proof fn lemma_image_id_goes_first(c: CommandBuilder)
    requires
        c.image_id is Some,
    ensures
        control_fields(c) == control_fields(CommandBuilder { image_number: None, ..c }),
        control_data(c) == control_data(CommandBuilder { image_number: None, ..c }),
{
    let d = CommandBuilder { image_number: None, ..c };
    assert(transmission_fields(c, Seq::empty()) == transmission_fields(d, Seq::empty()));
}

/// A command with only the image id and the image number set has the
/// control data `i=<image id>`.
pub proof fn lemma_image_id_alone(id: u32, number: u32)
    ensures
        control_data(
            CommandBuilder {
                image_id: Some(id),
                image_number: Some(number),
                ..CommandBuilder::empty()
            },
        ) == seq!['i' as u8, '=' as u8] + decimal(id as int),
{
    let c = CommandBuilder {
        image_id: Some(id),
        image_number: Some(number),
        ..CommandBuilder::empty()
    };
    assert(control_fields(c) =~= seq![field('i', decimal(id as int))]);
}

} // verus!
