use breakinator::{aligned_len_reaches, get_read_len, query_end, query_loc, CigarOp};

#[test]
fn read_len_sums_query_ops_and_clips() {
    let ops = vec![
        CigarOp::SoftClip(100),
        CigarOp::Match(300),
        CigarOp::Del(40),
        CigarOp::Ins(10),
        CigarOp::RefSkip(500),
        CigarOp::Equal(50),
        CigarOp::Diff(5),
        CigarOp::HardClip(35),
    ];
    // deletions, skips and pads touch only the reference
    assert_eq!(get_read_len(&ops), 100 + 300 + 10 + 50 + 5 + 35);
}

#[test]
fn aligned_len_threshold_is_inclusive_and_ignores_clips() {
    let ops = vec![
        CigarOp::SoftClip(1000),
        CigarOp::Match(150),
        CigarOp::Del(500),
        CigarOp::Ins(50),
    ];
    // aligned part is 150 + 50 = 200 read bases
    assert!(aligned_len_reaches(&ops, 200));
    assert!(!aligned_len_reaches(&ops, 201));
    assert!(aligned_len_reaches(&ops, 0));
}

#[test]
fn query_coordinates_come_from_the_strand_matching_clip() {
    let ops = vec![
        CigarOp::SoftClip(100),
        CigarOp::Match(300),
        CigarOp::HardClip(50),
    ];
    // forward: the aligned part starts after the leading clip and the
    // trailing clip bounds its end
    assert_eq!(query_loc(&ops, false), 100);
    assert_eq!(query_end(&ops, false), 50);
    // reverse: the operation list is reference-ordered, so the roles of the
    // two clips swap
    assert_eq!(query_loc(&ops, true), 50);
    assert_eq!(query_end(&ops, true), 100);
    // no clips at all
    let bare = vec![CigarOp::Match(300)];
    assert_eq!(query_loc(&bare, false), 0);
    assert_eq!(query_end(&bare, true), 0);
}
