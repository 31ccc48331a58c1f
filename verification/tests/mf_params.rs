use remote_desktop::codec::mf_params::{
    attribute_pair, color_space, hundred_ns, ColorUsage, NominalRange,
};

#[test]
fn cap_u32_nam_dung_nua_tren_nua_duoi() {
    assert_eq!(attribute_pair(1920, 1080), (1920u64 << 32) | 1080);
    assert_eq!(attribute_pair(0, u32::MAX), u32::MAX as u64);
    assert_eq!(attribute_pair(u32::MAX, 0), (u32::MAX as u64) << 32);
}

#[test]
fn micro_giay_thanh_don_vi_100ns() {
    assert_eq!(hundred_ns(0), 0);
    assert_eq!(hundred_ns(1), 10);
    assert_eq!(hundred_ns(1_000_000), 10_000_000);
}

#[test]
fn timestamp_khong_bao_gio_am() {
    assert!(hundred_ns(u64::MAX) > 0);
    assert_eq!(hundred_ns(u64::MAX), i64::MAX);
}

#[test]
fn khong_gian_mau_dat_dung_tung_bit() {
    let input = color_space(ColorUsage::Processing, true, true, NominalRange::Full);
    assert_eq!(input & 1, 1, "Usage phải là 1 (xử lý)");
    assert_eq!((input >> 1) & 1, 0, "RGB_Range 0 nghĩa là dải đầy");
    assert_eq!((input >> 4) & 3, 2, "Nominal_Range 2 nghĩa là 0-255");

    let output = color_space(ColorUsage::Processing, false, true, NominalRange::Limited);
    assert_eq!((output >> 2) & 1, 1, "YCbCr_Matrix 1 nghĩa là BT.709");
    assert_eq!((output >> 4) & 3, 1, "Nominal_Range 1 nghĩa là 16-235");
    assert_eq!((output >> 3) & 1, 0, "xvYCC luôn tắt");
}

#[test]
fn hai_ma_tran_mau_khac_nhau() {
    let bt601 = color_space(ColorUsage::Processing, false, false, NominalRange::Limited);
    let bt709 = color_space(ColorUsage::Processing, false, true, NominalRange::Limited);
    assert_ne!(bt601, bt709);
}
