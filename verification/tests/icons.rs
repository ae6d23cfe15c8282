use base64::Engine;
use vpanel_core::error::EngineError;
use vpanel_core::icon::{
    decode, encode_bytes_base64, encode_icon, packed_to_rgba, pick_best_pixmap, resolve_icon,
    theme_icon_paths, IconCache, SniPixmap,
};
use vpanel_core::systray::{decode_net_wm_icon, net_wm_icon_base64};

#[test]
fn decode_rejects_wrong_size() {
    let bytes = vec![0u8; 50];
    assert_eq!(
        decode(10, 10, &bytes).unwrap_err(),
        EngineError::InvalidPixmapSize { expected: 400, actual: 50 }
    );
}

#[test]
fn decode_reorders_channels() {
    // One pixel in wire order (little-endian ARGB word): b, g, r, a.
    let bytes = vec![2u8, 1, 255, 3];
    let icon = decode(1, 1, &bytes).unwrap();
    assert_eq!(icon.width, 1);
    assert_eq!(icon.height, 1);
    assert_eq!(icon.rgba, vec![255u8, 1, 2, 3]);
}

#[test]
fn decode_accepts_empty() {
    let icon = decode(0, 0, &Vec::new()).unwrap();
    assert_eq!(icon.rgba.len(), 0);
}

fn pix(w: i32, h: i32) -> SniPixmap {
    let n = (w.max(0) as usize) * (h.max(0) as usize) * 4;
    SniPixmap { width: w, height: h, data: vec![0u8; n] }
}

#[test]
fn best_fit_prefers_closest_not_undersized() {
    let pixmaps = vec![pix(16, 16), pix(48, 48), pix(64, 64)];
    assert_eq!(pick_best_pixmap(&pixmaps, 32), Some(1));
}

#[test]
fn best_fit_penalizes_undersized() {
    let pixmaps = vec![pix(16, 16), pix(64, 64)];
    assert_eq!(pick_best_pixmap(&pixmaps, 32), Some(1));
}

#[test]
fn best_fit_takes_first_of_ties() {
    let pixmaps = vec![pix(24, 40), pix(40, 24), pix(8, 8)];
    assert_eq!(pick_best_pixmap(&pixmaps, 32), Some(0));
}

#[test]
fn best_fit_empty_is_none() {
    assert_eq!(pick_best_pixmap(&Vec::new(), 32), None);
}

#[test]
fn base64_encoding_matches_standard() {
    assert_eq!(encode_bytes_base64(&b"abc".to_vec()).unwrap(), "YWJj");
    assert_eq!(encode_bytes_base64(&b"ab".to_vec()).unwrap(), "YWI=");
    assert_eq!(encode_bytes_base64(&Vec::new()).unwrap(), "");
}

#[test]
fn encode_icon_produces_png() {
    let icon = decode(1, 1, &vec![10u8, 20, 30, 255]).unwrap();
    let b64 = encode_icon(&icon).unwrap();
    let png = base64::engine::general_purpose::STANDARD.decode(&b64).unwrap();
    assert_eq!(&png[0..8], &[0x89, b'P', b'N', b'G', 0x0D, 0x0A, 0x1A, 0x0A]);
}

#[test]
fn packed_pixels_expand_to_rgba() {
    let rgba = packed_to_rgba(&vec![0xAABBCCDDu32]);
    assert_eq!(rgba, vec![0xBB, 0xCC, 0xDD, 0xAA]);
}

#[test]
fn net_wm_icon_decodes() {
    let values = vec![1u32, 1, 0xFF102030];
    let icon = decode_net_wm_icon(&values).unwrap();
    assert_eq!(icon.width, 1);
    assert_eq!(icon.rgba, vec![0x10, 0x20, 0x30, 0xFF]);
    let b64 = net_wm_icon_base64(&values).unwrap();
    let png = base64::engine::general_purpose::STANDARD.decode(&b64).unwrap();
    assert_eq!(&png[0..4], &[0x89, b'P', b'N', b'G']);
}

#[test]
fn net_wm_icon_rejects_malformed() {
    assert_eq!(decode_net_wm_icon(&vec![5u32]).unwrap_err(), EngineError::DecodeError);
    assert_eq!(decode_net_wm_icon(&vec![2u32, 2, 0]).unwrap_err(), EngineError::DecodeError);
    assert_eq!(net_wm_icon_base64(&vec![2u32, 2, 0]), None);
}

#[test]
fn icon_priority_pixmap_first() {
    assert_eq!(
        resolve_icon(Some("pix".to_string()), Some("theme".to_string())),
        Some("pix".to_string())
    );
    assert_eq!(resolve_icon(None, Some("theme".to_string())), Some("theme".to_string()));
    assert_eq!(resolve_icon(None, None), None);
}

#[test]
fn icon_cache_rebuilds_entries() {
    let mut cache = IconCache::new();
    assert_eq!(cache.lookup("firefox"), None);
    cache.store("firefox", "AAAA".to_string());
    assert_eq!(cache.lookup("firefox"), Some("AAAA".to_string()));
    // Entries are rebuilt, not invalidated: a second store replaces.
    cache.store("firefox", "BBBB".to_string());
    assert_eq!(cache.lookup("firefox"), Some("BBBB".to_string()));
    assert_eq!(cache.entries.len(), 1);
    cache.store("editor", "CCCC".to_string());
    assert_eq!(cache.entries.len(), 2);
    assert_eq!(cache.lookup("editor"), Some("CCCC".to_string()));
    assert_eq!(cache.lookup("firefox"), Some("BBBB".to_string()));
}

#[test]
fn theme_paths_are_candidate_files() {
    let paths = theme_icon_paths("firefox");
    assert_eq!(
        paths,
        vec![
            "/usr/share/icons/hicolor/16x16/apps/firefox.png".to_string(),
            "/usr/share/icons/hicolor/22x22/apps/firefox.png".to_string(),
            "/usr/share/icons/hicolor/24x24/apps/firefox.png".to_string(),
            "/usr/share/pixmaps/firefox.png".to_string(),
        ]
    );
}
