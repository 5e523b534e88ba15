use font_codec::topdict::{Entry, Fixed, StringId, TopDict};

fn sid(value: u16) -> StringId {
    StringId { value }
}

#[test]
fn later_entry_for_the_same_field_wins() {
    let entries = vec![
        Entry::Version(sid(1)),
        Entry::Notice(sid(2)),
        Entry::Version(sid(3)),
        Entry::Other,
    ];
    let dict = TopDict::new(&entries);
    assert_eq!(dict.version, Some(sid(3)));
    assert_eq!(dict.notice, Some(sid(2)));
    assert_eq!(dict.full_name, None);
    assert_eq!(dict.charstrings_offset, None);
}

#[test]
fn ros_entry_fills_every_component() {
    let entries = vec![Entry::Ros {
        registry: sid(7),
        ordering: sid(8),
        supplement: Fixed { bits: 9 },
    }];
    let dict = TopDict::new(&entries);
    let ros = dict.ros.unwrap();
    assert_eq!(ros.registry, Some(sid(7)));
    assert_eq!(ros.ordering, Some(sid(8)));
    assert_eq!(ros.supplement, Some(Fixed { bits: 9 }));
}

#[test]
fn assorted_entries_land_in_their_fields() {
    let entries = vec![
        Entry::CharstringsOffset(100),
        Entry::PrivateDictRange((8, 40)),
        Entry::IsFixedPitch(true),
        Entry::CidCount(1000),
        Entry::FontMatrix([Fixed { bits: 1 }; 6]),
    ];
    let dict = TopDict::new(&entries);
    assert_eq!(dict.charstrings_offset, Some(100));
    assert_eq!(dict.private_dict_range, Some((8, 40)));
    assert_eq!(dict.is_fixed_pitch, Some(true));
    assert_eq!(dict.cid_count, Some(1000));
    assert_eq!(dict.font_matrix, Some([Fixed { bits: 1 }; 6]));
}

#[test]
fn no_entries_leave_the_dictionary_empty() {
    let dict = TopDict::new(&vec![]);
    assert_eq!(dict, TopDict::default());
}
