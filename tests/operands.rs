use shin::flags::{check_ctrl_flags, ctrl_warnings, CtrlFlags, Warning};
use shin::lists::{Endian, SmallList, U16List, U8List};
use shin::time::Easing;
use shin::types::{
    LayerType, MessageTextLayout, MessageboxStyle, MessageboxType, Pan, ValidationError, Volume,
};
use shin::video::{receive_outcome, FrameTiming, ReceiveError};

#[test]
fn layer_type_from_number() {
    assert_eq!(LayerType::from_number(0), Ok(LayerType::Null));
    assert_eq!(LayerType::from_number(3), Ok(LayerType::Bustup));
    assert_eq!(LayerType::from_number(9), Ok(LayerType::Quiz));
    assert_eq!(LayerType::from_number(10), Err(ValidationError::InvalidLayerType(10)));
    assert_eq!(LayerType::from_number(-1), Err(ValidationError::InvalidLayerType(-1)));
}

#[test]
fn messagebox_style_from_number() {
    assert_eq!(
        MessageboxStyle::from_number(0x21),
        Ok(MessageboxStyle {
            messagebox_type: MessageboxType::WitchSpace,
            text_layout: MessageTextLayout::Center,
        })
    );
    assert_eq!(
        MessageboxStyle::from_number(-1),
        Err(ValidationError::NegativeMessageboxStyle(-1))
    );
    assert_eq!(MessageboxStyle::from_number(6), Err(ValidationError::InvalidMessageboxType(6)));
    assert_eq!(MessageboxStyle::from_number(0x40), Err(ValidationError::InvalidTextLayout(4)));
    let d = MessageboxStyle::default();
    assert_eq!(d.messagebox_type, MessageboxType::Neutral);
    assert_eq!(d.text_layout, MessageTextLayout::Left);
}

#[test]
fn volume_and_pan_clamp() {
    assert_eq!(Volume::from_number(1500), Volume(1000));
    assert_eq!(Volume::from_number(-3), Volume(0));
    assert_eq!(Volume::from_number(250), Volume(250));
    assert_eq!(Volume::default(), Volume(1000));
    assert_eq!(Pan::from_number(-2000), Pan(-1000));
    assert_eq!(Pan::from_number(2000), Pan(1000));
    assert_eq!(Pan::from_number(-300), Pan(-300));
    assert_eq!(Pan::default(), Pan(0));
}

#[test]
fn ctrl_flags_fields() {
    let f = CtrlFlags::from_bits(5 | (1 << 6) | (1 << 9) | (1 << 16));
    assert_eq!(f.easing, 5);
    assert!(f.scale_time);
    assert!(!f.delta);
    assert!(f.ff_to_target);
    assert!(!f.ff_to_current);
    assert!(f.ignore_wait);
    assert_eq!(f.unused_1, 0);
    assert_eq!(f.unused_3, 0);
    let g = CtrlFlags::from_bits(-1);
    assert_eq!(g.unused_3, 0x7fff);
}

#[test]
fn ctrl_flag_classification() {
    let check = |flags: i32| check_ctrl_flags(&CtrlFlags::from_bits(flags), flags, 3);
    assert_eq!(check(0), Ok(Easing::Linear));
    assert_eq!(check(5), Ok(Easing::Power(3)));
    assert_eq!(check(1 << 10), Err(ValidationError::ReservedFlags(1 << 10)));
    assert_eq!(check(1 << 13), Err(ValidationError::ReservedFlags(1 << 13)));
    assert_eq!(check((1 << 8) | (1 << 9)), Err(ValidationError::ConflictingFastForward));
    assert_eq!(check(6), Err(ValidationError::UnknownEasing(6)));
    assert_eq!(check((1 << 7) | (1 << 8)), Ok(Easing::Linear));
}

#[test]
fn ctrl_flag_warnings_in_bit_order() {
    let f = CtrlFlags::from_bits((1 << 6) | (1 << 7) | (1 << 12) | (1 << 16));
    assert_eq!(
        ctrl_warnings(&f),
        vec![
            Warning::ScaleTimeUnsupported,
            Warning::DeltaUnsupported,
            Warning::ProhibitFastForwardUnsupported,
            Warning::IgnoreWaitUnsupported,
        ]
    );
    assert!(ctrl_warnings(&CtrlFlags::from_bits(0)).is_empty());
}

#[test]
fn u8_list_reads_count_then_elements() {
    let b = [9u8, 2, 1, 0, 2, 0, 7];
    let (list, end) = U8List::<u16>::read_options(&b, 1, Endian::Little).unwrap();
    assert_eq!(list.0, vec![1, 2]);
    assert_eq!(end, 6);
    let (list, end) = U8List::<u16>::read_options(&b, 1, Endian::Big).unwrap();
    assert_eq!(list.0, vec![0x100, 0x200]);
    assert_eq!(end, 6);
    assert!(U8List::<u16>::read_options(&[3u8, 1, 0], 0, Endian::Little).is_none());
    assert!(U8List::<u16>::read_options(&[], 0, Endian::Little).is_none());
    let (empty, end) = U8List::<u16>::read_options(&[0u8], 0, Endian::Little).unwrap();
    assert!(empty.0.is_empty());
    assert_eq!(end, 1);
}

#[test]
fn u16_list_reads_count_then_elements() {
    let b = [0u8, 1, 0x12, 0x34];
    let (list, end) = U16List::<u16>::read_options(&b, 0, Endian::Big).unwrap();
    assert_eq!(list.0, vec![0x1234]);
    assert_eq!(end, 4);
    assert!(U16List::<u16>::read_options(&b, 0, Endian::Little).is_none());
    assert!(U16List::<u16>::read_options(&[1u8], 0, Endian::Big).is_none());
}

#[test]
fn frame_timing_is_plain_data() {
    let t = FrameTiming { frame_number: 3, start_time: 3003, duration: 1001 };
    let u = t;
    assert_eq!(t, u);
}

#[test]
fn small_list_reads_counted_numbers() {
    let b = [3u8, 1, 0, 2, 0, 3, 0];
    let (list, end) = SmallList::read_u8_counted(&b, 0, Endian::Little).unwrap();
    assert_eq!(list.to_vec(), vec![1, 2, 3]);
    assert_eq!(end, 7);
    let mut long = vec![0u8, 8];
    for i in 0..8u8 {
        long.push(0);
        long.push(i + 10);
    }
    let (list, end) = SmallList::read_u16_counted(&long, 0, Endian::Big).unwrap();
    assert_eq!(list.to_vec(), vec![10, 11, 12, 13, 14, 15, 16, 17]);
    assert_eq!(end, 18);
    assert!(SmallList::read_u8_counted(&[2u8, 1, 0], 0, Endian::Little).is_none());
    assert!(SmallList::read_u16_counted(&[0u8], 0, Endian::Big).is_none());
}

#[test]
fn byte_lists_read_count_then_bytes() {
    let (list, end) = U8List::<u8>::read_options(&[0x02u8, 0x05, 0x07], 0, Endian::Little).unwrap();
    assert_eq!(list.0, vec![5u8, 7]);
    assert_eq!(end, 3);
    let (list, end) = U16List::<u8>::read_options(&[0x00u8, 0x02, 0x05, 0x07], 0, Endian::Big).unwrap();
    assert_eq!(list.0, vec![5u8, 7]);
    assert_eq!(end, 4);
    let (list, end) = U16List::<u8>::read_options(&[0x02u8, 0x00, 0x05, 0x07], 0, Endian::Little).unwrap();
    assert_eq!(list.0, vec![5u8, 7]);
    assert_eq!(end, 4);
    assert!(U8List::<u8>::read_options(&[0x03u8, 0x05], 0, Endian::Little).is_none());
    assert!(U16List::<u8>::read_options(&[0x00u8], 0, Endian::Big).is_none());
}

#[test]
fn receive_codes_are_classified() {
    assert_eq!(receive_outcome(0), Ok(true));
    assert_eq!(receive_outcome(-11), Ok(false));
    assert_eq!(receive_outcome(-541478725), Err(ReceiveError::EndOfFile));
    assert_eq!(receive_outcome(-22), Err(ReceiveError::ReceiveFailed(-22)));
}
