use asylum_core::pallet::Pallet;
use asylum_core::state::{Config, Propagation};
use asylum_core::types::{
    AccountId, Change, IntepretationInfo, Interpretation, ProposalState, Tags,
};

const ISSUER: AccountId = 7;
const HOLDER: AccountId = 8;

const IDS: [&str; 5] = ["a", "b", "c", "d", "e"];
const TAGS: [&str; 4] = ["red", "green", "blue", "grey"];

struct Dice(u64);

impl Dice {
    fn roll(&mut self, sides: u64) -> usize {
        self.0 = self.0.wrapping_mul(6364136223846793005).wrapping_add(1442695040888963407);
        ((self.0 >> 33) % sides) as usize
    }
}

fn b(s: &str) -> Vec<u8> {
    s.as_bytes().to_vec()
}

fn some_tags(dice: &mut Dice) -> Tags {
    let mut t = Tags::new();
    t.insert(b(TAGS[dice.roll(4)]));
    if dice.roll(2) == 0 {
        t.insert(b(TAGS[dice.roll(4)]));
    }
    t
}

fn some_info(dice: &mut Dice) -> IntepretationInfo {
    let content = dice.roll(1000).to_string();
    IntepretationInfo {
        id: b(IDS[dice.roll(5)]),
        src: if dice.roll(4) == 0 { None } else { Some(b(&content)) },
        metadata: Some(b(&content)),
    }
}

fn some_change(dice: &mut Dice) -> Change {
    match dice.roll(5) {
        0 => Change::Add {
            interpretations: (0..dice.roll(3)).map(|_| (some_info(dice), some_tags(dice))).collect(),
        },
        1 => Change::Modify { interpretations: (0..dice.roll(3)).map(|_| some_info(dice)).collect() },
        2 => Change::ModifyTags { interpretation_id: b(IDS[dice.roll(5)]), tags: some_tags(dice) },
        3 => Change::RemoveInterpretation { interpretation_id: b(IDS[dice.roll(5)]) },
        _ => Change::RemoveInterpretationType { interpretation_type: b(TAGS[dice.roll(4)]) },
    }
}

fn ledger(propagation: Propagation) -> Pallet {
    let mut l = Pallet::new(Config { propagation, initial_state: ProposalState::Approved, item_limit: u32::MAX });
    for tag in TAGS {
        assert_eq!(l.create_interpretation_tag(b(tag), b("m")), Ok(()));
    }
    let mut red = Tags::new();
    red.insert(b("red"));
    assert_eq!(
        l.create_template(
            ISSUER,
            b("T"),
            b("m"),
            None,
            vec![Interpretation {
                tags: red,
                interpretation: IntepretationInfo { id: b("a"), src: None, metadata: Some(b("0")) },
            }],
        ),
        Ok(0)
    );
    assert_eq!(l.mint_item_from_template(ISSUER, ISSUER, 0, b("own")), Ok(0));
    assert_eq!(l.mint_item_from_template(ISSUER, HOLDER, 0, b("held")), Ok(1));
    assert_eq!(l.accept_item_update(HOLDER, 0, 1), Ok(()));
    l
}

#[test]
fn pushing_and_pulling_come_to_the_same() {
    let mut dice = Dice(2024);
    let mut pushed = ledger(Propagation::Push);
    let mut pulled = ledger(Propagation::Pull);
    let mut applied = 0;
    let mut refused = 0;
    for round in 0..400u32 {
        let changes: Vec<Change> = (0..dice.roll(4)).map(|_| some_change(&mut dice)).collect();
        assert_eq!(pushed.submit_template_change_proposal(HOLDER, 0, changes.clone()), Ok(round));
        assert_eq!(pulled.submit_template_change_proposal(HOLDER, 0, changes), Ok(round));
        let before = pushed.clone();
        let a = pushed.update_template(ISSUER, 0, round);
        let c = pulled.update_template(ISSUER, 0, round);
        assert_eq!(a, c);
        if a.is_ok() {
            applied += 1;
        } else {
            refused += 1;
            assert_eq!(pushed, before);
        }
        assert_eq!(pulled.update_item(ISSUER, 0, 0), Ok(()));
        assert_eq!(pushed.accept_item_update(HOLDER, 0, 1), Ok(()));
        assert_eq!(pulled.update_item(HOLDER, 0, 1), Ok(()));
        for id in IDS {
            let id = b(id);
            let held = pushed.template_interpretations(0, &id);
            assert_eq!(held, pulled.template_interpretations(0, &id));
            for item in [0, 1] {
                let tags = pushed.item_interpretation_tags(0, item, &id);
                assert_eq!(tags, pulled.item_interpretation_tags(0, item, &id));
                assert_eq!(tags, held.clone().map(|(_, tags)| tags));
                let resource = pushed.resources(0, item, &id);
                assert_eq!(resource, pulled.resources(0, item, &id));
                assert_eq!(resource.is_some(), held.is_some());
                if let (Some(r), Some((info, _))) = (resource, &held) {
                    assert_eq!(r.src, info.src);
                    assert_eq!(r.metadata, info.metadata);
                    assert!(!r.pending && !r.pending_removal);
                }
            }
        }
    }
    assert!(applied > 50);
    assert!(refused > 50);
}
