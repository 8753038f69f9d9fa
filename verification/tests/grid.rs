use lsb_stego::PixelGrid;

#[test]
fn new_accepts_matching_sample_count() {
    let g = PixelGrid::new(2, 1, 3, vec![10, 20, 30, 40, 50, 60]).unwrap();
    assert_eq!(g.width(), 2);
    assert_eq!(g.height(), 1);
    assert_eq!(g.channel_count(), 3);
    assert_eq!(g.samples(), &vec![10, 20, 30, 40, 50, 60]);
}

#[test]
fn new_rejects_wrong_sample_count() {
    assert!(PixelGrid::new(2, 1, 3, vec![10, 20, 30, 40, 50]).is_none());
    assert!(PixelGrid::new(2, 1, 3, vec![10, 20, 30, 40, 50, 60, 70]).is_none());
    assert!(PixelGrid::new(2, 2, 4, vec![0; 15]).is_none());
    assert!(PixelGrid::new(1, 1, 1, vec![]).is_none());
    assert!(PixelGrid::new(3, 2, 1, vec![0; 3]).is_none());
    assert!(PixelGrid::new(3, 2, 2, vec![0; 6]).is_none());
}

#[test]
fn new_accepts_empty_grids() {
    assert!(PixelGrid::new(0, 0, 4, vec![]).is_some());
    assert!(PixelGrid::new(0, 7, 4, vec![]).is_some());
    assert!(PixelGrid::new(7, 0, 4, vec![]).is_some());
    assert!(PixelGrid::new(5, 5, 0, vec![]).is_some());
    assert!(PixelGrid::new(0, 0, 4, vec![1]).is_none());
    assert!(PixelGrid::new(5, 5, 0, vec![1]).is_none());
}

#[test]
fn new_handles_dimensions_whose_product_is_large() {
    assert!(PixelGrid::new(u32::MAX, u32::MAX, 4, vec![0; 16]).is_none());
    assert!(PixelGrid::new(u32::MAX, u32::MAX, usize::MAX, vec![]).is_none());
    assert!(PixelGrid::new(u32::MAX, u32::MAX, 0, vec![]).is_some());
    assert!(PixelGrid::new(u32::MAX, 0, usize::MAX, vec![]).is_some());
    assert!(PixelGrid::new(65_536, 65_536, 1, vec![0; 4]).is_none());
}

#[test]
fn clone_is_equal_and_independent() {
    let g = PixelGrid::new(2, 2, 1, vec![1, 2, 3, 4]).unwrap();
    let h = g.clone();
    assert_eq!(g, h);
    assert_eq!(h.into_samples(), vec![1, 2, 3, 4]);
    assert_eq!(g.samples(), &vec![1, 2, 3, 4]);
}

#[test]
fn into_samples_returns_raster_order() {
    let samples: Vec<u8> = (0..24).collect();
    let g = PixelGrid::new(3, 2, 4, samples.clone()).unwrap();
    assert_eq!(g.into_samples(), samples);
}

#[test]
fn grids_differ_when_layout_differs() {
    let a = PixelGrid::new(2, 3, 1, vec![0; 6]).unwrap();
    let b = PixelGrid::new(3, 2, 1, vec![0; 6]).unwrap();
    let c = PixelGrid::new(1, 2, 3, vec![0; 6]).unwrap();
    assert_ne!(a, b);
    assert_ne!(a, c);
    assert_ne!(b, c);
}
