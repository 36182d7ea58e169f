use hibiki_stream::devices::{
    choose_input_device, choose_output_device, matching_indices, OutputChoice,
};

fn names() -> Vec<String> {
    vec![
        "Built-in Microphone".to_string(),
        "USB Audio Device".to_string(),
        "Loopback Monitor".to_string(),
        "usb headset".to_string(),
    ]
}

#[test]
fn matching_is_case_insensitive_both_ways() {
    // query lowercase, name uppercase — and the other way around
    let r = matching_indices(&names(), &"usb".to_string());
    assert_eq!(r, vec![1, 3]);
    let r = matching_indices(&names(), &"USB".to_string());
    assert_eq!(r, vec![1, 3]);
    let r = matching_indices(&names(), &"MICRO".to_string());
    assert_eq!(r, vec![0]);
}

#[test]
fn matching_is_substring_not_prefix() {
    let r = matching_indices(&names(), &"monitor".to_string());
    assert_eq!(r, vec![2]);
    let r = matching_indices(&names(), &"audio device".to_string());
    assert_eq!(r, vec![1]);
}

#[test]
fn first_match_wins_on_multiple_matches() {
    assert_eq!(choose_input_device(&names(), &"usb".to_string()), Some(1));
    assert_eq!(choose_input_device(&names(), &"o".to_string()), Some(0));
}

#[test]
fn unmatched_input_query_finds_nothing() {
    assert_eq!(choose_input_device(&names(), &"hdmi".to_string()), None);
    assert!(matching_indices(&names(), &"hdmi".to_string()).is_empty());
}

#[test]
fn output_falls_back_to_default() {
    assert_eq!(choose_output_device(&names(), None), OutputChoice::Default);
    assert_eq!(
        choose_output_device(&names(), Some(&"hdmi".to_string())),
        OutputChoice::Default
    );
    assert_eq!(
        choose_output_device(&names(), Some(&"loopback".to_string())),
        OutputChoice::Device(2)
    );
}

#[test]
fn empty_query_matches_every_name() {
    let r = matching_indices(&names(), &"".to_string());
    assert_eq!(r, vec![0, 1, 2, 3]);
}
