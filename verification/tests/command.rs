use kitty_graphics_protocol::command::{Command, CommandBuilder};
use kitty_graphics_protocol::types::{
    Action, AnimationControl, CompositionMode, Compression, CursorPolicy, DeleteTarget,
    FrameComposition, ImageFormat, TransmissionMedium, UnicodePlaceholder,
};

#[test]
fn empty_command_has_no_control_data() {
    assert_eq!(Command::builder().build().build_control_data(), "");
    assert_eq!(CommandBuilder::new().build().build_control_data(), "");
    assert_eq!(CommandBuilder::default().build().build_control_data(), "");
}

#[test]
fn action_and_format_only() {
    let actions = [
        (Action::Query, "q"),
        (Action::Transmit, "t"),
        (Action::TransmitAndDisplay, "T"),
        (Action::Place, "p"),
        (Action::Delete, "d"),
        (Action::Frame, "f"),
        (Action::AnimationControl, "a"),
        (Action::ComposeFrame, "c"),
    ];
    let formats = [
        (ImageFormat::Rgb, "24"),
        (ImageFormat::Rgba, "32"),
        (ImageFormat::Png, "100"),
    ];
    for (action, a) in actions {
        for (format, f) in formats {
            let cmd = Command::builder().action(action).format(format).build();
            assert_eq!(cmd.build_control_data(), format!("a={a},f={f}"));
        }
    }
}

#[test]
fn image_id_goes_before_image_number() {
    let cmd = Command::builder().image_id(7).image_number(9).build();
    assert_eq!(cmd.build_control_data(), "i=7");
    let cmd = Command::builder().image_number(9).image_id(7).build();
    assert_eq!(cmd.build_control_data(), "i=7");
    let cmd = Command::builder().image_number(9).build();
    assert_eq!(cmd.build_control_data(), "I=9");
}

#[test]
fn every_field_in_its_place() {
    let cmd = Command::builder()
        .background_color(25)
        .loop_count(24)
        .frame_gap(-23)
        .frame_number(22)
        .animation_control(AnimationControl::Run)
        .relative_offset(-20, 21)
        .parent(18, 19)
        .unicode_placeholder(3, 4)
        .data_range(16, 17)
        .path("/tmp/image")
        .delete_target(DeleteTarget::AtCell { free_data: true })
        .cursor_policy(CursorPolicy::NoMove)
        .z_index(-13)
        .display_area(11, 12)
        .cell_offset(9, 10)
        .source_rect(5, 6, 7, 8)
        .quiet(1)
        .compression(Compression::Zlib)
        .more_data(true)
        .placement_id(4)
        .image_number(3)
        .image_id(2)
        .dimensions(640, 480)
        .medium(TransmissionMedium::SharedMemory)
        .format(ImageFormat::Png)
        .action(Action::Transmit)
        .ref_frame(99)
        .composition(FrameComposition::default())
        .build();
    assert_eq!(
        cmd.build_control_data(),
        "a=t,f=100,t=s,s=640,v=480,i=2,p=4,m=1,o=z,q=1,x=5,y=6,w=7,h=8,X=9,Y=10,c=11,r=12,\
         z=-13,C=1,d=P,S=16,O=17,U=1,P=18,Q=19,H=-20,V=21,s=3,c=22,z=-23,v=24,Y=25"
    );
}

#[test]
fn more_data_is_sent_only_when_set() {
    assert_eq!(Command::builder().more_data(false).build().build_control_data(), "m=0");
    assert_eq!(Command::builder().more_data(true).build().build_control_data(), "m=1");
    assert_eq!(Command::builder().quiet(0).build().build_control_data(), "q=0");
    assert_eq!(Command::builder().quiet(2).build().build_control_data(), "q=2");
    assert_eq!(Command::builder().quiet(255).build().build_control_data(), "q=255");
}

#[test]
fn source_rect_fields_are_independent() {
    let mut b = CommandBuilder::new();
    b.source_y = Some(3);
    b.source_height = Some(4);
    b.cell_offset_y = Some(5);
    b.rows = Some(6);
    assert_eq!(b.build().build_control_data(), "y=3,h=4,Y=5,r=6");
}

#[test]
fn default_cursor_policy_is_not_sent() {
    let cmd = Command::builder().cursor_policy(CursorPolicy::Default).build();
    assert_eq!(cmd.build_control_data(), "");
    let cmd = Command::builder().cursor_policy(CursorPolicy::NoMove).build();
    assert_eq!(cmd.build_control_data(), "C=1");
}

#[test]
fn delete_targets_have_their_codes() {
    let targets = [
        (DeleteTarget::All, 'a'),
        (DeleteTarget::AllWithFree, 'A'),
        (DeleteTarget::ById { free_data: false }, 'i'),
        (DeleteTarget::ById { free_data: true }, 'I'),
        (DeleteTarget::ByNumber { free_data: false }, 'n'),
        (DeleteTarget::ByNumber { free_data: true }, 'N'),
        (DeleteTarget::AtCursor { free_data: false }, 'c'),
        (DeleteTarget::AtCursor { free_data: true }, 'C'),
        (DeleteTarget::Frames { free_data: false }, 'f'),
        (DeleteTarget::Frames { free_data: true }, 'F'),
        (DeleteTarget::AtCell { free_data: false }, 'p'),
        (DeleteTarget::AtCell { free_data: true }, 'P'),
        (DeleteTarget::AtCellWithZIndex { free_data: false }, 'q'),
        (DeleteTarget::AtCellWithZIndex { free_data: true }, 'Q'),
        (DeleteTarget::ByIdRange { free_data: false }, 'r'),
        (DeleteTarget::ByIdRange { free_data: true }, 'R'),
        (DeleteTarget::ByColumn { free_data: false }, 'x'),
        (DeleteTarget::ByColumn { free_data: true }, 'X'),
        (DeleteTarget::ByRow { free_data: false }, 'y'),
        (DeleteTarget::ByRow { free_data: true }, 'Y'),
        (DeleteTarget::ByZIndex { free_data: false }, 'z'),
        (DeleteTarget::ByZIndex { free_data: true }, 'Z'),
    ];
    for (target, code) in targets {
        assert_eq!(target.code(), code);
        let cmd = Command::builder().delete_target(target).build();
        assert_eq!(cmd.build_control_data(), format!("d={code}"));
    }
}

#[test]
fn wire_codes_are_fixed() {
    assert_eq!(ImageFormat::Rgb.code(), 24);
    assert_eq!(ImageFormat::Rgba.code(), 32);
    assert_eq!(ImageFormat::Png.code(), 100);
    assert_eq!(TransmissionMedium::Direct.code(), b'd');
    assert_eq!(TransmissionMedium::File.code(), b'f');
    assert_eq!(TransmissionMedium::TempFile.code(), b't');
    assert_eq!(TransmissionMedium::SharedMemory.code(), b's');
    assert_eq!(Compression::Zlib.code(), b'z');
    assert_eq!(CursorPolicy::Default.code(), 0);
    assert_eq!(CursorPolicy::NoMove.code(), 1);
    assert_eq!(AnimationControl::Stop.code(), 1);
    assert_eq!(AnimationControl::Loading.code(), 2);
    assert_eq!(AnimationControl::Run.code(), 3);
    assert_eq!(CompositionMode::AlphaBlend.code(), 0);
    assert_eq!(CompositionMode::Replace.code(), 1);
    assert_eq!(Action::TransmitAndDisplay.code(), b'T');
}

#[test]
fn defaults_are_as_the_protocol_says() {
    assert_eq!(Action::default(), Action::TransmitAndDisplay);
    assert_eq!(ImageFormat::default(), ImageFormat::Rgba);
    assert_eq!(TransmissionMedium::default(), TransmissionMedium::Direct);
    assert_eq!(CursorPolicy::default(), CursorPolicy::Default);
    assert_eq!(CompositionMode::default(), CompositionMode::AlphaBlend);
    let c = FrameComposition::default();
    assert_eq!(c.source_frame, 1);
    assert_eq!(c.dest_frame, 1);
    assert_eq!(c.width, None);
    assert_eq!(c.dest_y, None);
    assert_eq!(c.mode, CompositionMode::AlphaBlend);
}

#[test]
fn media_have_their_letters() {
    let media = [
        (TransmissionMedium::Direct, "t=d"),
        (TransmissionMedium::File, "t=f"),
        (TransmissionMedium::TempFile, "t=t"),
        (TransmissionMedium::SharedMemory, "t=s"),
    ];
    for (medium, text) in media {
        assert_eq!(Command::builder().medium(medium).build().build_control_data(), text);
    }
}

#[test]
fn animation_fields_share_keys_with_image_fields() {
    let cmd = Command::builder()
        .dimensions(10, 20)
        .animation_control(AnimationControl::Stop)
        .build();
    assert_eq!(cmd.build_control_data(), "s=10,v=20,s=1");
    let cmd = Command::builder().z_index(5).frame_gap(40).build();
    assert_eq!(cmd.build_control_data(), "z=5,z=40");
    let cmd = Command::builder().display_area(3, 4).frame_number(2).loop_count(1).build();
    assert_eq!(cmd.build_control_data(), "c=3,r=4,c=2,v=1");
    let cmd = Command::builder().animation_control(AnimationControl::Loading).build();
    assert_eq!(cmd.build_control_data(), "s=2");
}

#[test]
fn zero_gap_and_zero_loops_are_not_sent() {
    let cmd = Command::builder().frame_gap(0).loop_count(0).build();
    assert_eq!(cmd.build_control_data(), "");
    let cmd = Command::builder().frame_gap(-1).loop_count(1).build();
    assert_eq!(cmd.build_control_data(), "z=-1,v=1");
}

#[test]
fn extreme_numbers_are_written_in_full() {
    let cmd = Command::builder()
        .dimensions(u32::MAX, 0)
        .z_index(i32::MIN)
        .relative_offset(i32::MAX, -1)
        .data_range(usize::MAX, 0)
        .build();
    assert_eq!(
        cmd.build_control_data(),
        format!(
            "s=4294967295,v=0,z=-2147483648,S={},O=0,H=2147483647,V=-1",
            usize::MAX
        )
    );
}

#[test]
fn placeholder_size_is_not_sent() {
    let cmd = Command::builder().unicode_placeholder(80, 24).build();
    assert_eq!(cmd.build_control_data(), "U=1");
    let p = UnicodePlaceholder { columns: 80, rows: 24 };
    assert_eq!(p.columns, 80);
    assert_eq!(p.rows, 24);
}

#[test]
fn path_is_no_control_data() {
    let cmd = Command::builder().path("/tmp/x.png").build();
    assert_eq!(cmd.build_control_data(), "");
}

#[test]
fn convenience_commands() {
    assert_eq!(Command::query_support().build_control_data(), "a=q,q=2");
    assert_eq!(Command::delete_all().build_control_data(), "a=d,d=a");
    assert_eq!(Command::delete_by_id(42).build_control_data(), "a=d,i=42,d=I");
    assert_eq!(Command::place(42, 10, 5).build_control_data(), "a=p,i=42,c=10,r=5");
}

#[test]
fn command_is_shown_with_its_control_data() {
    assert_eq!(Command::place(42, 10, 5).to_string(), "Command(a=p,i=42,c=10,r=5)");
    assert_eq!(Command::builder().build().to_string(), "Command()");
}

#[test]
fn control_bytes_are_the_text() {
    let cmd = Command::place(42, 10, 5);
    assert_eq!(cmd.control_bytes(), cmd.build_control_data().into_bytes());
}

#[test]
fn setters_replace_earlier_values() {
    let cmd = Command::builder().image_id(1).image_id(2).build();
    assert_eq!(cmd.build_control_data(), "i=2");
    let b = Command::builder().action(Action::Query);
    assert_eq!(b.action, Some(Action::Query));
    assert_eq!(b.format, None);
}
