use doskvol::description::{Description, Segment};
use doskvol::errors::AuthError;
use doskvol::types::{
    ArmorFlags, Background, BitCount, Class, CrewSpecialty, Heritage, Items, Trauma, TraumaFlags,
    Vice,
};

fn segments(text: &str) -> Vec<Segment> {
    Description::new(text.to_owned()).to_segments()
}

#[test]
fn plain_text_is_one_segment() {
    assert_eq!(segments("plain words"), vec![Segment::Text("plain words".to_owned())]);
    assert_eq!(segments(""), Vec::<Segment>::new());
}

#[test]
fn italic_spans_are_cut_out() {
    assert_eq!(
        segments("a *b* c"),
        vec![
            Segment::Text("a ".to_owned()),
            Segment::Italic("b".to_owned()),
            Segment::Text(" c".to_owned()),
        ]
    );
    assert_eq!(segments("*i*"), vec![Segment::Italic("i".to_owned())]);
}

#[test]
fn bold_spans_are_cut_out() {
    assert_eq!(
        segments("x **bold** y"),
        vec![
            Segment::Text("x ".to_owned()),
            Segment::Bold("bold".to_owned()),
            Segment::Text(" y".to_owned()),
        ]
    );
}

#[test]
fn double_star_closed_by_single_star_falls_back_to_italic() {
    // The stray opening star is appended to the preceding segment.
    assert_eq!(
        segments("a**i*j"),
        vec![
            Segment::Text("a*".to_owned()),
            Segment::Italic("i".to_owned()),
            Segment::Text("j".to_owned()),
        ]
    );
    // Without a preceding segment there is nothing to amend.
    assert_eq!(
        segments("**i*j"),
        vec![Segment::Italic("i".to_owned()), Segment::Text("j".to_owned())]
    );
}

#[test]
fn unterminated_spans_are_dropped() {
    assert_eq!(segments("ab*cd"), vec![Segment::Text("ab".to_owned())]);
    assert_eq!(segments("ab*"), vec![Segment::Text("ab".to_owned())]);
    assert_eq!(segments("**never closed"), Vec::<Segment>::new());
}

#[test]
fn description_keeps_its_raw_text() {
    let d = Description::new("keep *this*".to_owned());
    assert_eq!(d.as_str(), "keep *this*");
    assert_eq!(d.clone(), d);
}

#[test]
fn bit_counts_match_their_patterns() {
    assert_eq!(TraumaFlags::empty().count_bits(), 0);
    assert_eq!(TraumaFlags::from_trauma(Trauma::Haunted).count_bits(), 1);
    assert_eq!(TraumaFlags { bits: 0b1011 }.count_bits(), 3);
    assert_eq!(ArmorFlags::armor().count_bits(), 1);
    assert_eq!(Items::from_bits(0xFFFF).count_bits(), 16);
    assert_eq!(Items::empty().bits(), 0);
}

#[test]
fn labels_round_trip_through_parse() {
    assert_eq!(Heritage::Tycsheros.label(), "Tycheros");
    assert_eq!(Heritage::parse("The Dagger Isles"), Some(Heritage::TheDaggerIsles));
    assert_eq!(Heritage::parse("nowhere"), None);
    assert_eq!(Background::parse("Underworld"), Some(Background::Underworld));
    assert_eq!(Vice::parse("Obligation"), Some(Vice::Obligation));
    assert_eq!(Trauma::parse("Vicious"), Some(Trauma::Vicious));
}

#[test]
fn class_and_specialty_parse_ignores_case() {
    assert_eq!(Class::parse("CUTTER"), Some(Class::Cutter));
    assert_eq!(Class::parse("whisper"), Some(Class::Whisper));
    assert_eq!(Class::parse("bard"), None);
    assert_eq!(CrewSpecialty::parse("SMUGGLERS"), Some(CrewSpecialty::Smugglers));
    assert_eq!(CrewSpecialty::Shadows.label(), "Shadows");
}

#[test]
fn every_variant_is_listed_once() {
    assert_eq!(Heritage::all().len(), 6);
    assert_eq!(Background::all().len(), 7);
    assert_eq!(Vice::all().len(), 7);
    assert_eq!(Trauma::all().len(), 8);
    assert_eq!(CrewSpecialty::all().len(), 6);
}

#[test]
fn error_messages_stay_generic() {
    assert_eq!(AuthError::NotFound.message(), "Not found");
    assert_eq!(AuthError::NotAuthenticated.message(), "Not authenticated");
    assert_eq!(AuthError::InvalidCredentials.message(), "Invalid code");
    assert_eq!(AuthError::ServerError.message(), "Internal error");
}
