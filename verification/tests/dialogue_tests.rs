use oxyde::behavior::BehaviorResult;
use oxyde::dialogue::{create_dialogue, DialogueBehavior};
use oxyde::intent::IntentType;
use oxyde::str_map::StrMap;

#[test]
fn first_mentioned_topic_answers() {
    let d = create_dialogue();
    assert_eq!(d.reply_for_draw("Any QUEST for me?", 0), "I might have a task for you if you're interested.");
    assert_eq!(d.reply_for_draw("Any quest for me?", 3), "Are you looking for work? I could use some help.");
    assert_eq!(d.reply_for_draw("Nice weather in the shop", 0), "I have various goods for sale. Take a look!");
}

#[test]
fn defaults_when_no_topic_is_mentioned() {
    let d = create_dialogue();
    assert_eq!(d.reply_for_draw("Hello", 0), "Hmm, interesting.");
    assert_eq!(d.reply_for_draw("Hello", 6), "Let's talk about something else.");
    assert!(d.can_reply("Hello"));
    match d.execute("Tell me about the weather") {
        BehaviorResult::Response(t) => assert!(t.contains("weather") || t.contains("Fine day")),
        _ => panic!("expected a response"),
    }
}

#[test]
fn topics_can_be_added_and_replaced() {
    let mut d = DialogueBehavior::new(StrMap::new(), Vec::new());
    assert!(!d.can_reply("dragons?"));
    d.add_topic("Dragons", vec!["They sleep in the north.".to_string()]);
    assert!(d.can_reply("what about dragons?"));
    assert_eq!(d.reply_for_draw("what about dragons?", 7), "They sleep in the north.");
    d.add_topic("Dragons", vec![]);
    assert!(!d.can_reply("what about dragons?"));
    assert!(d.matches_intent(IntentType::Greeting));
    assert!(!d.matches_intent(IntentType::Command));
    assert_eq!(d.priority(), 50);
}
