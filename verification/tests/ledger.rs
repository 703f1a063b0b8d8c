use asylum_core::game::{DestroyWitness, GameDetails};
use asylum_core::item::Resource;
use asylum_core::call::{Call, Event};
use asylum_core::genesis::GenesisConfig;
use asylum_core::pallet::Pallet;
use asylum_core::state::{Config, Propagation};
use asylum_core::tags::{standing, Standing};
use asylum_core::types::{
    AccountId, Change, Error, ErrorKind, IntepretationInfo, Interpretation, ItemInfo,
    ProposalInfo, ProposalState, ResourceInfo, TagInfo, Tags, TemplateInfo,
};

const ISSUER: AccountId = 10;
const HOLDER: AccountId = 20;
const OTHER: AccountId = 30;

fn b(s: &str) -> Vec<u8> {
    s.as_bytes().to_vec()
}

fn tags(names: &[&str]) -> Tags {
    let mut t = Tags::new();
    for n in names {
        t.insert(b(n));
    }
    t
}

fn info(id: &str, src: &str, metadata: &str) -> IntepretationInfo {
    IntepretationInfo { id: b(id), src: Some(b(src)), metadata: Some(b(metadata)) }
}

fn content(src: &str, metadata: &str) -> ResourceInfo {
    ResourceInfo { src: Some(b(src)), metadata: Some(b(metadata)) }
}

fn pull() -> Config {
    Config { propagation: Propagation::Pull, initial_state: ProposalState::Pending, item_limit: u32::MAX }
}

fn push() -> Config {
    Config { propagation: Propagation::Push, initial_state: ProposalState::Approved, item_limit: u32::MAX }
}

/// A ledger with the type "2D", the tag "dark" and one template of `ISSUER`
/// that holds "2D_pixel" under "2D" and "2D_comics" under "2D" and "dark".
fn ledger_with_template(config: Config) -> Pallet {
    let mut l = Pallet::new(config);
    assert_eq!(l.create_interpretation_type(b("2D"), b("H")), Ok(0));
    assert_eq!(l.create_interpretation_tag(b("dark"), b("H")), Ok(()));
    assert_eq!(
        l.create_template(
            ISSUER,
            b("M"),
            b("H"),
            None,
            vec![
                Interpretation { tags: tags(&["2D"]), interpretation: info("2D_pixel", "H", "H") },
                Interpretation {
                    tags: tags(&["2D", "dark"]),
                    interpretation: info("2D_comics", "H", "H"),
                },
            ],
        ),
        Ok(0)
    );
    l
}

fn refused<T: std::fmt::Debug + PartialEq>(
    l: &mut Pallet,
    op: impl FnOnce(&mut Pallet) -> Result<T, Error>,
    expected: Error,
) {
    let before = l.clone();
    assert_eq!(op(l), Err(expected));
    assert_eq!(*l, before);
}

fn applied(id: &str, src: &str, metadata: &str) -> Resource {
    Resource {
        id: b(id),
        pending: false,
        pending_removal: false,
        src: Some(b(src)),
        metadata: Some(b(metadata)),
        accepted: Some(content(src, metadata)),
    }
}

#[test]
fn registry_names_are_given_once() {
    let mut l = Pallet::new(push());
    assert_eq!(l.create_interpretation_tag(b("dark"), b("m1")), Ok(()));
    refused(&mut l, |l| l.create_interpretation_tag(b("dark"), b("m2")), Error::TagAlreadyExists);
    assert_eq!(l.tags(&b("dark")), Some(TagInfo { metadata: b("m1") }));

    assert_eq!(l.create_interpretation_type(b("2D"), b("m1")), Ok(0));
    assert_eq!(l.create_interpretation_type(b("3D"), b("m1")), Ok(1));
    refused(
        &mut l,
        |l| l.create_interpretation_type(b("2D"), b("m2")),
        Error::InterpretationTypeAlreadyExist,
    );
    assert_eq!(l.interpretation_types(&b("3D")).unwrap().id, 1);
    assert_eq!(l.interpretation_types(&b("2D")).unwrap().metadata, b("m1"));

    assert_eq!(l.create_interpretation(&b("3D"), b("model"), Some(b("s")), None), Ok(0));
    assert_eq!(l.create_interpretation(&b("2D"), b("sprite"), None, Some(b("m"))), Ok(1));
    refused(
        &mut l,
        |l| l.create_interpretation(&b("2D"), b("model"), None, None),
        Error::InterpretationAlreadyExist,
    );
    refused(
        &mut l,
        |l| l.create_interpretation(&b("4D"), b("tesseract"), None, None),
        Error::InterpretationTypeNotExist,
    );
    let model = l.interpretations(&b("model")).unwrap();
    assert_eq!(model.id, 0);
    assert_eq!(model.interpretation_type, 1);
    assert_eq!(model.src, Some(b("s")));
    assert_eq!(model.metadata, None);
    assert_eq!(l.interpretations(&b("tesseract")), None);
}

#[test]
fn a_tag_and_a_type_may_share_a_name() {
    let mut l = Pallet::new(push());
    assert_eq!(l.create_interpretation_tag(b("2D"), b("m")), Ok(()));
    assert_eq!(l.create_interpretation_type(b("2D"), b("m")), Ok(0));
}

#[test]
fn template_creation_checks_the_tags() {
    let mut l = Pallet::new(push());
    assert_eq!(l.create_interpretation_tag(b("dark"), b("m")), Ok(()));
    refused(
        &mut l,
        |l| {
            l.create_template(
                ISSUER,
                b("T"),
                b("m"),
                None,
                vec![Interpretation {
                    tags: tags(&["dark", "light"]),
                    interpretation: info("a", "s", "m"),
                }],
            )
        },
        Error::UnknownTag,
    );
    refused(
        &mut l,
        |l| {
            l.create_template(
                ISSUER,
                b("T"),
                b("m"),
                None,
                vec![
                    Interpretation { tags: tags(&["light"]), interpretation: info("a", "s", "m") },
                    Interpretation { tags: Tags::new(), interpretation: info("b", "s", "m") },
                ],
            )
        },
        Error::UnknownTag,
    );
    refused(
        &mut l,
        |l| {
            l.create_template(
                ISSUER,
                b("T"),
                b("m"),
                None,
                vec![
                    Interpretation { tags: Tags::new(), interpretation: info("b", "s", "m") },
                    Interpretation { tags: tags(&["light"]), interpretation: info("a", "s", "m") },
                ],
            )
        },
        Error::EmptyTags,
    );
    assert_eq!(l.create_template(ISSUER, b("T"), b("m"), None, vec![]), Ok(0));
    assert_eq!(l.create_template(OTHER, b("U"), b("m"), None, vec![]), Ok(1));
    assert_eq!(l.issuer(0), Some(ISSUER));
    assert_eq!(l.issuer(1), Some(OTHER));
    assert_eq!(l.issuer(2), None);
}

#[test]
fn a_template_keeps_the_last_of_two_interpretations_with_one_id() {
    let mut l = Pallet::new(push());
    assert_eq!(l.create_interpretation_tag(b("dark"), b("m")), Ok(()));
    assert_eq!(l.create_interpretation_tag(b("light"), b("m")), Ok(()));
    assert_eq!(
        l.create_template(
            ISSUER,
            b("T"),
            b("m"),
            None,
            vec![
                Interpretation { tags: tags(&["dark"]), interpretation: info("a", "s1", "m1") },
                Interpretation { tags: tags(&["light"]), interpretation: info("a", "s2", "m2") },
            ],
        ),
        Ok(0)
    );
    assert_eq!(
        l.template_interpretations(0, &b("a")),
        Some((info("a", "s2", "m2"), tags(&["light"])))
    );
}

#[test]
fn a_minted_item_holds_what_the_template_holds() {
    let mut l = ledger_with_template(push());
    assert_eq!(l.mint_item_from_template(ISSUER, ISSUER, 0, b("item")), Ok(0));
    assert_eq!(l.owner(0, 0), Some(ISSUER));
    assert_eq!(l.item_interpretation_tags(0, 0, &b("2D_pixel")), Some(tags(&["2D"])));
    assert_eq!(l.item_interpretation_tags(0, 0, &b("2D_comics")), Some(tags(&["2D", "dark"])));
    assert_eq!(l.resources(0, 0, &b("2D_pixel")), Some(applied("2D_pixel", "H", "H")));
    assert_eq!(l.resources(0, 0, &b("2D_comics")), Some(applied("2D_comics", "H", "H")));
    assert_eq!(l.resources(0, 0, &b("3D_pixel")), None);
    assert_eq!(l.item_interpretation_tags(0, 0, &b("3D_pixel")), None);
    assert_eq!(l.resources(0, 1, &b("2D_pixel")), None);
    assert_eq!(l.resources(1, 0, &b("2D_pixel")), None);
}

#[test]
fn an_item_minted_for_another_awaits_its_owner() {
    let mut l = ledger_with_template(push());
    assert_eq!(l.mint_item_from_template(ISSUER, HOLDER, 0, b("item")), Ok(0));
    assert_eq!(l.owner(0, 0), Some(HOLDER));
    assert_eq!(
        l.resources(0, 0, &b("2D_pixel")),
        Some(Resource {
            id: b("2D_pixel"),
            pending: true,
            pending_removal: false,
            src: Some(b("H")),
            metadata: Some(b("H")),
            accepted: None,
        })
    );
    assert_eq!(l.item_interpretation_tags(0, 0, &b("2D_pixel")), Some(tags(&["2D"])));
    assert_eq!(l.accept_item_update(HOLDER, 0, 0), Ok(()));
    assert_eq!(l.resources(0, 0, &b("2D_pixel")), Some(applied("2D_pixel", "H", "H")));
}

#[test]
fn what_is_kept_of_templates_and_items_can_be_read() {
    let mut l = ledger_with_template(push());
    assert_eq!(l.create_template(OTHER, b("U"), b("about U"), Some(9), vec![]), Ok(1));
    assert_eq!(l.mint_item_from_template(OTHER, HOLDER, 1, b("about the item")), Ok(0));
    assert_eq!(
        l.templates(1),
        Some(TemplateInfo {
            issuer: OTHER,
            name: b("U"),
            metadata: b("about U"),
            max: Some(9),
            next_item_id: 1,
        })
    );
    assert_eq!(
        l.templates(0),
        Some(TemplateInfo { issuer: ISSUER, name: b("M"), metadata: b("H"), max: None, next_item_id: 0 })
    );
    assert_eq!(l.templates(2), None);
    assert_eq!(l.items(1, 0), Some(ItemInfo { owner: HOLDER, metadata: b("about the item") }));
    assert_eq!(l.items(1, 1), None);
    assert_eq!(l.items(0, 0), None);
    assert_eq!(l.items(5, 0), None);
}

#[test]
fn only_the_issuer_mints() {
    let mut l = ledger_with_template(push());
    refused(&mut l, |l| l.mint_item_from_template(HOLDER, HOLDER, 0, b("i")), Error::NoPermission);
    refused(&mut l, |l| l.mint_item_from_template(ISSUER, HOLDER, 7, b("i")), Error::TemplateNotExist);
}

#[test]
fn a_template_numbers_no_more_items_than_its_maximum() {
    let mut l = Pallet::new(push());
    assert_eq!(l.create_template(ISSUER, b("T"), b("m"), Some(2), vec![]), Ok(0));
    assert_eq!(l.create_template(ISSUER, b("U"), b("m"), Some(0), vec![]), Ok(1));
    assert_eq!(l.mint_item_from_template(ISSUER, HOLDER, 0, b("i")), Ok(0));
    assert_eq!(l.mint_item_from_template(ISSUER, HOLDER, 0, b("i")), Ok(1));
    refused(&mut l, |l| l.mint_item_from_template(ISSUER, HOLDER, 0, b("i")), Error::NoAvailableId);
    assert_eq!(l.burn_item(0, 0), Ok(()));
    refused(&mut l, |l| l.mint_item_from_template(ISSUER, HOLDER, 0, b("i")), Error::NoAvailableId);
    refused(&mut l, |l| l.mint_item_from_template(ISSUER, HOLDER, 1, b("i")), Error::NoAvailableId);
}

#[test]
fn a_ledger_bounds_the_items_of_its_templates() {
    let mut l = Pallet::new(Config {
        propagation: Propagation::Push,
        initial_state: ProposalState::Approved,
        item_limit: 2,
    });
    assert_eq!(l.create_template(ISSUER, b("T"), b("m"), None, vec![]), Ok(0));
    assert_eq!(l.create_template(ISSUER, b("U"), b("m"), Some(5), vec![]), Ok(1));
    assert_eq!(l.create_template(ISSUER, b("V"), b("m"), Some(1), vec![]), Ok(2));
    for template in [0, 1] {
        assert_eq!(l.mint_item_from_template(ISSUER, HOLDER, template, b("i")), Ok(0));
        assert_eq!(l.mint_item_from_template(ISSUER, HOLDER, template, b("i")), Ok(1));
        refused(
            &mut l,
            |l| l.mint_item_from_template(ISSUER, HOLDER, template, b("i")),
            Error::NoAvailableId,
        );
    }
    assert_eq!(l.mint_item_from_template(ISSUER, HOLDER, 2, b("i")), Ok(0));
    refused(&mut l, |l| l.mint_item_from_template(ISSUER, HOLDER, 2, b("i")), Error::NoAvailableId);
}

#[test]
fn reconciling_twice_is_reconciling_once() {
    let mut l = ledger_with_template(pull());
    assert_eq!(l.mint_item_from_template(ISSUER, HOLDER, 0, b("item")), Ok(0));
    assert_eq!(
        l.apply_changes(
            ISSUER,
            0,
            Change::Modify { interpretations: vec![info("2D_pixel", "H", "H2")] },
        ),
        Ok(())
    );
    assert_eq!(
        l.apply_changes(
            ISSUER,
            0,
            Change::RemoveInterpretation { interpretation_id: b("2D_comics") },
        ),
        Ok(())
    );
    assert_eq!(l.update_item(HOLDER, 0, 0), Ok(()));
    let once = l.clone();
    assert_eq!(l.update_item(HOLDER, 0, 0), Ok(()));
    assert_eq!(l, once);
    assert_eq!(l.resources(0, 0, &b("2D_pixel")), Some(applied("2D_pixel", "H", "H2")));
    assert_eq!(l.resources(0, 0, &b("2D_comics")), None);
    assert_eq!(l.item_interpretation_tags(0, 0, &b("2D_comics")), None);
}

#[test]
fn only_the_owner_reconciles() {
    let mut l = ledger_with_template(pull());
    assert_eq!(l.mint_item_from_template(ISSUER, HOLDER, 0, b("item")), Ok(0));
    refused(&mut l, |l| l.update_item(ISSUER, 0, 0), Error::NoPermission);
    refused(&mut l, |l| l.update_item(HOLDER, 0, 1), Error::NoPermission);
    refused(&mut l, |l| l.update_item(HOLDER, 1, 0), Error::NoPermission);
}

#[test]
fn adding_under_a_type_and_removing_the_type_is_a_round_trip() {
    let mut l = ledger_with_template(push());
    let before = l.clone();
    assert_eq!(
        l.apply_changes(
            ISSUER,
            0,
            Change::Add {
                interpretations: vec![
                    (info("3D_pixel", "s", "m"), tags(&["3D"])),
                    (info("3D_comics", "s", "m"), tags(&["3D", "dark"])),
                ],
            },
        ),
        Ok(())
    );
    assert_eq!(
        l.template_interpretations(0, &b("3D_comics")),
        Some((info("3D_comics", "s", "m"), tags(&["3D", "dark"])))
    );
    assert_eq!(
        l.apply_changes(ISSUER, 0, Change::RemoveInterpretationType { interpretation_type: b("3D") }),
        Ok(())
    );
    assert_eq!(l, before);
    assert_eq!(l.template_interpretations(0, &b("3D_pixel")), None);
    assert_eq!(l.template_interpretations(0, &b("3D_comics")), None);
    assert_eq!(
        l.template_interpretations(0, &b("2D_comics")),
        Some((info("2D_comics", "H", "H"), tags(&["2D", "dark"])))
    );
}

#[test]
fn adding_an_interpretation_that_a_template_has_replaces_it() {
    let mut l = ledger_with_template(push());
    assert_eq!(l.mint_item_from_template(ISSUER, ISSUER, 0, b("mine")), Ok(0));
    assert_eq!(
        l.add_interpretation(ISSUER, 0, vec![(info("2D_pixel", "S9", "H9"), tags(&["dark"]))]),
        Ok(())
    );
    assert_eq!(
        l.template_interpretations(0, &b("2D_pixel")),
        Some((info("2D_pixel", "S9", "H9"), tags(&["dark"])))
    );
    assert_eq!(l.item_interpretation_tags(0, 0, &b("2D_pixel")), Some(tags(&["dark"])));
    assert_eq!(l.resources(0, 0, &b("2D_pixel")), Some(applied("2D_pixel", "S9", "H9")));
    assert_eq!(
        l.template_interpretations(0, &b("2D_comics")),
        Some((info("2D_comics", "H", "H"), tags(&["2D", "dark"])))
    );
}

#[test]
fn pushed_change_sets_keep_the_items_with_the_template() {
    let mut l = ledger_with_template(push());
    assert_eq!(l.mint_item_from_template(ISSUER, ISSUER, 0, b("mine")), Ok(0));
    assert_eq!(l.mint_item_from_template(ISSUER, HOLDER, 0, b("theirs")), Ok(1));
    assert_eq!(
        l.submit_template_change_proposal(
            OTHER,
            0,
            vec![
                Change::Add { interpretations: vec![(info("x", "s", "m"), tags(&["new"]))] },
                Change::RemoveInterpretation { interpretation_id: b("2D_pixel") },
                Change::Modify { interpretations: vec![info("2D_comics", "s2", "m2")] },
                Change::ModifyTags { interpretation_id: b("x"), tags: tags(&["newer", "dark"]) },
                Change::RemoveInterpretationType { interpretation_type: b("2D") },
            ],
        ),
        Ok(0)
    );
    assert_eq!(l.update_template(ISSUER, 0, 0), Ok(()));
    for id in ["x", "2D_pixel", "2D_comics"] {
        let held = l.template_interpretations(0, &b(id));
        for item in [0, 1] {
            let tags_of_item = l.item_interpretation_tags(0, item, &b(id));
            assert_eq!(tags_of_item, held.clone().map(|(_, tags)| tags));
            if let Some((info, _)) = &held {
                let r = l.resources(0, item, &b(id)).unwrap();
                assert_eq!(r.src, info.src);
                assert_eq!(r.metadata, info.metadata);
                assert!(!r.pending_removal);
            }
        }
    }
    assert_eq!(
        l.template_interpretations(0, &b("x")),
        Some((info("x", "s", "m"), tags(&["newer", "dark"])))
    );
    assert_eq!(l.template_interpretations(0, &b("2D_pixel")), None);
    assert_eq!(l.template_interpretations(0, &b("2D_comics")), None);
    assert_eq!(l.resources(0, 0, &b("2D_comics")), None);
    assert!(l.resources(0, 1, &b("2D_comics")).unwrap().pending_removal);
    assert_eq!(l.accept_item_update(HOLDER, 0, 1), Ok(()));
    assert_eq!(l.resources(0, 1, &b("2D_comics")), None);
    assert_eq!(l.resources(0, 1, &b("x")), Some(applied("x", "s", "m")));
}

#[test]
fn removing_a_type_that_a_template_lacks_is_refused() {
    let mut l = ledger_with_template(push());
    refused(
        &mut l,
        |l| l.remove_interpretation_type(ISSUER, 0, b("3D")),
        Error::TemplateNotSupportThisType,
    );
    refused(&mut l, |l| l.remove_interpretation_type(ISSUER, 4, b("2D")), Error::TemplateNotExist);
}

#[test]
fn a_proposal_is_bound_to_its_template() {
    let mut l = ledger_with_template(push());
    assert_eq!(l.create_template(ISSUER, b("N"), b("H"), None, vec![]), Ok(1));
    assert_eq!(
        l.submit_template_change_proposal(
            OTHER,
            1,
            vec![Change::Add { interpretations: vec![(info("x", "s", "m"), tags(&["dark"]))] }],
        ),
        Ok(0)
    );
    refused(&mut l, |l| l.update_template(ISSUER, 0, 0), Error::ProposalInappropriateTemplate);
    assert_eq!(l.template_interpretations(0, &b("x")), None);
    assert_eq!(l.template_interpretations(1, &b("x")), None);
    assert_eq!(l.update_template(ISSUER, 1, 0), Ok(()));
    assert_eq!(l.template_interpretations(0, &b("x")), None);
    assert_eq!(l.template_interpretations(1, &b("x")), Some((info("x", "s", "m"), tags(&["dark"]))));
}

#[test]
fn a_proposal_is_applied_once() {
    let mut l = ledger_with_template(push());
    assert_eq!(
        l.submit_template_change_proposal(
            OTHER,
            0,
            vec![Change::RemoveInterpretation { interpretation_id: b("2D_pixel") }],
        ),
        Ok(0)
    );
    assert_eq!(
        l.proposals(0),
        Some(ProposalInfo {
            author: OTHER,
            state: ProposalState::Approved,
            template_id: 0,
            change_set: vec![Change::RemoveInterpretation { interpretation_id: b("2D_pixel") }],
        })
    );
    refused(&mut l, |l| l.update_template(ISSUER, 0, 1), Error::ProposalNotExist);
    assert_eq!(l.update_template(ISSUER, 0, 0), Ok(()));
    assert_eq!(l.proposals(0), None);
    refused(&mut l, |l| l.update_template(ISSUER, 0, 0), Error::ProposalNotExist);
    assert_eq!(l.submit_template_change_proposal(OTHER, 0, vec![]), Ok(1));
}

#[test]
fn a_proposal_needs_approval_where_the_ledger_asks_for_it() {
    let mut l = ledger_with_template(Config {
        propagation: Propagation::Push,
        initial_state: ProposalState::Pending,
        item_limit: u32::MAX,
    });
    assert_eq!(
        l.submit_template_change_proposal(
            OTHER,
            0,
            vec![Change::RemoveInterpretation { interpretation_id: b("2D_pixel") }],
        ),
        Ok(0)
    );
    assert_eq!(l.proposals(0).unwrap().state, ProposalState::Pending);
    refused(&mut l, |l| l.update_template(ISSUER, 0, 0), Error::ProposalNotApproved);
    refused(&mut l, |l| l.approve_proposal(OTHER, 0), Error::NoPermission);
    refused(&mut l, |l| l.approve_proposal(ISSUER, 5), Error::ProposalNotExist);
    assert_eq!(l.reject_proposal(ISSUER, 0), Ok(()));
    assert_eq!(l.proposals(0).unwrap().state, ProposalState::Rejected);
    refused(&mut l, |l| l.update_template(ISSUER, 0, 0), Error::ProposalNotApproved);
    assert_eq!(l.approve_proposal(ISSUER, 0), Ok(()));
    assert_eq!(l.proposals(0).unwrap().state, ProposalState::Approved);
    assert_eq!(l.update_template(ISSUER, 0, 0), Ok(()));
    assert_eq!(l.template_interpretations(0, &b("2D_pixel")), None);
}

#[test]
fn a_proposal_for_an_unknown_template_cannot_be_reviewed() {
    let mut l = Pallet::new(pull());
    assert_eq!(l.submit_template_change_proposal(OTHER, 3, vec![]), Ok(0));
    refused(&mut l, |l| l.approve_proposal(OTHER, 0), Error::NoPermission);
    refused(&mut l, |l| l.update_template(OTHER, 3, 0), Error::NoPermission);
}

#[test]
fn removing_a_type_reaches_the_items() {
    let mut l = ledger_with_template(push());
    assert_eq!(l.mint_item_from_template(ISSUER, ISSUER, 0, b("mine")), Ok(0));
    assert_eq!(l.mint_item_from_template(ISSUER, HOLDER, 0, b("theirs")), Ok(1));
    assert_eq!(l.accept_item_update(HOLDER, 0, 1), Ok(()));
    assert_eq!(l.remove_interpretation_type(ISSUER, 0, b("dark")), Ok(()));

    assert_eq!(l.template_interpretations(0, &b("2D_comics")), None);
    assert_eq!(
        l.template_interpretations(0, &b("2D_pixel")),
        Some((info("2D_pixel", "H", "H"), tags(&["2D"])))
    );
    assert_eq!(l.item_interpretation_tags(0, 0, &b("2D_comics")), None);
    assert_eq!(l.resources(0, 0, &b("2D_comics")), None);
    assert_eq!(l.resources(0, 0, &b("2D_pixel")), Some(applied("2D_pixel", "H", "H")));

    assert_eq!(l.item_interpretation_tags(0, 1, &b("2D_comics")), None);
    assert_eq!(
        l.resources(0, 1, &b("2D_comics")),
        Some(Resource {
            id: b("2D_comics"),
            pending: false,
            pending_removal: true,
            src: Some(b("H")),
            metadata: Some(b("H")),
            accepted: Some(content("H", "H")),
        })
    );
    assert_eq!(l.accept_item_update(HOLDER, 0, 1), Ok(()));
    assert_eq!(l.resources(0, 1, &b("2D_comics")), None);
    assert_eq!(l.resources(0, 1, &b("2D_pixel")), Some(applied("2D_pixel", "H", "H")));

    assert_eq!(l.remove_interpretation_type(ISSUER, 0, b("2D")), Ok(()));
    assert_eq!(l.template_interpretations(0, &b("2D_pixel")), None);
    assert_eq!(l.resources(0, 0, &b("2D_pixel")), None);
}

#[test]
fn removing_a_type_reaches_the_items_where_changes_are_pulled() {
    let mut l = ledger_with_template(pull());
    assert_eq!(l.mint_item_from_template(ISSUER, ISSUER, 0, b("mine")), Ok(0));
    assert_eq!(l.remove_interpretation_type(ISSUER, 0, b("dark")), Ok(()));
    assert_eq!(l.item_interpretation_tags(0, 0, &b("2D_comics")), None);
    assert_eq!(l.resources(0, 0, &b("2D_comics")), None);
    assert_eq!(l.resources(0, 0, &b("2D_pixel")), Some(applied("2D_pixel", "H", "H")));
}

#[test]
fn a_pushed_change_awaits_the_owner() {
    let mut l = ledger_with_template(push());
    assert_eq!(l.mint_item_from_template(ISSUER, HOLDER, 0, b("theirs")), Ok(0));
    assert_eq!(l.accept_item_update(HOLDER, 0, 0), Ok(()));
    assert_eq!(
        l.modify_interpretation(ISSUER, 0, vec![info("2D_pixel", "S2", "H2")]),
        Ok(())
    );
    assert_eq!(
        l.resources(0, 0, &b("2D_pixel")),
        Some(Resource {
            id: b("2D_pixel"),
            pending: true,
            pending_removal: false,
            src: Some(b("S2")),
            metadata: Some(b("H2")),
            accepted: Some(content("H", "H")),
        })
    );
    refused(&mut l, |l| l.accept_item_update(ISSUER, 0, 0), Error::NoPermission);
    refused(&mut l, |l| l.accept_item_update(OTHER, 0, 0), Error::NoPermission);
    assert_eq!(l.resources(0, 0, &b("2D_pixel")).unwrap().accepted, Some(content("H", "H")));
    assert_eq!(l.accept_item_update(HOLDER, 0, 0), Ok(()));
    assert_eq!(l.resources(0, 0, &b("2D_pixel")), Some(applied("2D_pixel", "S2", "H2")));
    let settled = l.clone();
    assert_eq!(l.accept_item_update(HOLDER, 0, 0), Ok(()));
    assert_eq!(l, settled);
}

#[test]
fn writing_again_takes_back_a_pending_removal() {
    let mut l = ledger_with_template(push());
    assert_eq!(l.mint_item_from_template(ISSUER, HOLDER, 0, b("theirs")), Ok(0));
    assert_eq!(l.accept_item_update(HOLDER, 0, 0), Ok(()));
    assert_eq!(l.remove_interpretation(ISSUER, 0, b("2D_pixel")), Ok(()));
    assert!(l.resources(0, 0, &b("2D_pixel")).unwrap().pending_removal);
    assert_eq!(
        l.add_interpretation(ISSUER, 0, vec![(info("2D_pixel", "S3", "H3"), tags(&["2D"]))]),
        Ok(())
    );
    assert_eq!(
        l.resources(0, 0, &b("2D_pixel")),
        Some(Resource {
            id: b("2D_pixel"),
            pending: true,
            pending_removal: false,
            src: Some(b("S3")),
            metadata: Some(b("H3")),
            accepted: Some(content("H", "H")),
        })
    );
    assert_eq!(l.accept_item_update(HOLDER, 0, 0), Ok(()));
    assert_eq!(l.resources(0, 0, &b("2D_pixel")), Some(applied("2D_pixel", "S3", "H3")));
}

#[test]
fn where_changes_are_pulled_an_item_changes_when_its_owner_asks() {
    let mut l = ledger_with_template(pull());
    assert_eq!(l.mint_item_from_template(ISSUER, HOLDER, 0, b("theirs")), Ok(0));
    assert_eq!(l.accept_item_update(HOLDER, 0, 0), Ok(()));
    assert_eq!(
        l.add_interpretation(ISSUER, 0, vec![(info("3D_pixel", "s", "m"), tags(&["3D"]))]),
        Ok(())
    );
    assert_eq!(l.modify_interpretation(ISSUER, 0, vec![info("2D_pixel", "S2", "H2")]), Ok(()));
    assert_eq!(l.modify_interpretation_tags(0, b("2D_comics"), tags(&["dark"])), Ok(()));
    assert_eq!(l.resources(0, 0, &b("3D_pixel")), None);
    assert_eq!(l.resources(0, 0, &b("2D_pixel")), Some(applied("2D_pixel", "H", "H")));
    assert_eq!(l.item_interpretation_tags(0, 0, &b("2D_comics")), Some(tags(&["2D", "dark"])));
    assert_eq!(l.update_item(HOLDER, 0, 0), Ok(()));
    assert_eq!(l.resources(0, 0, &b("3D_pixel")), Some(applied("3D_pixel", "s", "m")));
    assert_eq!(l.resources(0, 0, &b("2D_pixel")), Some(applied("2D_pixel", "S2", "H2")));
    assert_eq!(l.item_interpretation_tags(0, 0, &b("2D_comics")), Some(tags(&["dark"])));
    assert_eq!(l.item_interpretation_tags(0, 0, &b("3D_pixel")), Some(tags(&["3D"])));
}

#[test]
fn a_type_a_template_an_item_and_a_change_of_metadata() {
    let mut l = Pallet::new(pull());
    assert_eq!(l.create_interpretation_type(b("2D"), b("H")), Ok(0));
    assert_eq!(
        l.create_template(
            ISSUER,
            b("M"),
            b("H"),
            None,
            vec![Interpretation { tags: tags(&["2D"]), interpretation: info("2D_pixel", "H", "H") }],
        ),
        Ok(0)
    );
    assert_eq!(l.mint_item_from_template(ISSUER, HOLDER, 0, b("I1")), Ok(0));
    assert_eq!(l.item_interpretation_tags(0, 0, &b("2D_pixel")), Some(tags(&["2D"])));
    let minted = l.resources(0, 0, &b("2D_pixel")).unwrap();
    assert_eq!(minted.src, Some(b("H")));
    assert_eq!(minted.metadata, Some(b("H")));

    assert_eq!(
        l.submit_template_change_proposal(
            OTHER,
            0,
            vec![Change::Modify { interpretations: vec![info("2D_pixel", "H", "H2")] }],
        ),
        Ok(0)
    );
    assert_eq!(l.approve_proposal(ISSUER, 0), Ok(()));
    assert_eq!(l.update_template(ISSUER, 0, 0), Ok(()));
    assert_eq!(l.template_interpretations(0, &b("2D_pixel")).unwrap().0.metadata, Some(b("H2")));
    assert_eq!(l.resources(0, 0, &b("2D_pixel")).unwrap().metadata, Some(b("H")));
    assert_eq!(l.update_item(HOLDER, 0, 0), Ok(()));
    assert_eq!(l.resources(0, 0, &b("2D_pixel")), Some(applied("2D_pixel", "H", "H2")));
}

#[test]
fn changes_are_refused_where_their_conditions_are_not_met() {
    let mut l = ledger_with_template(push());
    refused(
        &mut l,
        |l| l.add_interpretation(ISSUER, 0, vec![(info("x", "s", "m"), Tags::new())]),
        Error::EmptyTags,
    );
    refused(
        &mut l,
        |l| {
            l.add_interpretation(
                ISSUER,
                0,
                vec![(info("x", "s", "m"), tags(&["2D"])), (info("y", "s", "m"), Tags::new())],
            )
        },
        Error::EmptyTags,
    );
    refused(
        &mut l,
        |l| l.modify_interpretation(ISSUER, 0, vec![info("2D_pixel", "s", "m"), info("x", "s", "m")]),
        Error::TemplateDoesntSupportThisInterpretation,
    );
    refused(
        &mut l,
        |l| l.modify_interpretation_tags(0, b("x"), tags(&["2D"])),
        Error::TemplateDoesntSupportThisInterpretation,
    );
    refused(
        &mut l,
        |l| l.remove_interpretation(ISSUER, 0, b("x")),
        Error::TemplateDoesntSupportThisInterpretation,
    );
    refused(&mut l, |l| l.add_interpretation(ISSUER, 9, vec![]), Error::TemplateNotExist);
    refused(&mut l, |l| l.modify_interpretation(ISSUER, 9, vec![]), Error::TemplateNotExist);
    refused(
        &mut l,
        |l| l.modify_interpretation_tags(9, b("2D_pixel"), tags(&["2D"])),
        Error::TemplateNotExist,
    );
    refused(&mut l, |l| l.remove_interpretation(ISSUER, 9, b("2D_pixel")), Error::TemplateNotExist);
    refused(
        &mut l,
        |l| l.apply_changes(ISSUER, 9, Change::Modify { interpretations: vec![] }),
        Error::TemplateNotExist,
    );
}

#[test]
fn a_change_set_is_applied_in_order_or_not_at_all() {
    let mut l = ledger_with_template(push());
    assert_eq!(l.mint_item_from_template(ISSUER, ISSUER, 0, b("mine")), Ok(0));
    assert_eq!(
        l.submit_template_change_proposal(
            ISSUER,
            0,
            vec![
                Change::Add { interpretations: vec![(info("x", "s", "m"), tags(&["new"]))] },
                Change::Modify { interpretations: vec![info("x", "s2", "m2")] },
                Change::ModifyTags { interpretation_id: b("x"), tags: tags(&["newer"]) },
            ],
        ),
        Ok(0)
    );
    assert_eq!(
        l.submit_template_change_proposal(
            ISSUER,
            0,
            vec![
                Change::RemoveInterpretation { interpretation_id: b("2D_pixel") },
                Change::RemoveInterpretationType { interpretation_type: b("3D") },
            ],
        ),
        Ok(1)
    );
    refused(&mut l, |l| l.update_template(ISSUER, 0, 1), Error::TemplateNotSupportThisType);
    assert_eq!(
        l.template_interpretations(0, &b("2D_pixel")),
        Some((info("2D_pixel", "H", "H"), tags(&["2D"])))
    );
    assert_eq!(l.update_template(ISSUER, 0, 0), Ok(()));
    assert_eq!(
        l.template_interpretations(0, &b("x")),
        Some((info("x", "s2", "m2"), tags(&["newer"])))
    );
    assert_eq!(l.item_interpretation_tags(0, 0, &b("x")), Some(tags(&["newer"])));
    assert_eq!(l.resources(0, 0, &b("x")), Some(applied("x", "s2", "m2")));
}

#[test]
fn an_item_handed_on_is_accepted_by_its_new_owner() {
    let mut l = ledger_with_template(push());
    assert_eq!(l.mint_item_from_template(ISSUER, HOLDER, 0, b("theirs")), Ok(0));
    assert_eq!(l.transfer_item(HOLDER, 0, 0, OTHER), Ok(()));
    refused(&mut l, |l| l.accept_item_update(HOLDER, 0, 0), Error::NoPermission);
    assert_eq!(l.accept_item_update(OTHER, 0, 0), Ok(()));
    assert_eq!(l.resources(0, 0, &b("2D_pixel")), Some(applied("2D_pixel", "H", "H")));
    refused(&mut l, |l| l.transfer_item(HOLDER, 0, 0, HOLDER), Error::NoPermission);
    refused(&mut l, |l| l.transfer_item(OTHER, 0, 3, HOLDER), Error::ItemNotExist);
}

#[test]
fn a_template_with_an_item_is_not_destroyed() {
    let mut l = ledger_with_template(push());
    assert_eq!(l.mint_item_from_template(ISSUER, HOLDER, 0, b("a")), Ok(0));
    assert_eq!(l.mint_item_from_template(ISSUER, HOLDER, 0, b("b")), Ok(1));
    refused(&mut l, |l| l.destroy_template(ISSUER, 0), Error::TemplateNotEmpty);
    refused(&mut l, |l| l.destroy_template(OTHER, 0), Error::TemplateNotEmpty);
    assert_eq!(l.burn_item(0, 1), Ok(()));
    refused(&mut l, |l| l.destroy_template(ISSUER, 0), Error::TemplateNotEmpty);
    assert_eq!(l.burn_item(0, 0), Ok(()));
    refused(&mut l, |l| l.destroy_template(OTHER, 0), Error::NoPermission);
    assert_eq!(l.destroy_template(ISSUER, 0), Ok(()));
    assert_eq!(l.issuer(0), None);
    assert_eq!(l.template_interpretations(0, &b("2D_pixel")), None);
    assert_eq!(l.create_template(ISSUER, b("N"), b("H"), None, vec![]), Ok(1));
}

#[test]
fn proposal_numbers_count_up() {
    let mut l = Pallet::new(push());
    assert_eq!(l.get_next_proposal_id(), Ok(0));
    assert_eq!(l.get_next_proposal_id(), Ok(1));
    assert_eq!(l.submit_template_change_proposal(OTHER, 0, vec![]), Ok(2));
}

#[test]
fn errors_fall_into_kinds() {
    assert_eq!(Error::TagAlreadyExists.kind(), ErrorKind::AlreadyExists);
    assert_eq!(Error::InterpretationTypeAlreadyExist.kind(), ErrorKind::AlreadyExists);
    assert_eq!(Error::InterpretationAlreadyExist.kind(), ErrorKind::AlreadyExists);
    assert_eq!(Error::UnknownTag.kind(), ErrorKind::NotFound);
    assert_eq!(Error::TemplateDoesntSupportThisInterpretation.kind(), ErrorKind::NotFound);
    assert_eq!(Error::ProposalNotExist.kind(), ErrorKind::NotFound);
    assert_eq!(Error::InterpretationTypeNotExist.kind(), ErrorKind::NotFound);
    assert_eq!(Error::TemplateNotExist.kind(), ErrorKind::NotFound);
    assert_eq!(Error::TemplateNotSupportThisType.kind(), ErrorKind::NotFound);
    assert_eq!(Error::ItemNotExist.kind(), ErrorKind::NotFound);
    assert_eq!(Error::EmptyTags.kind(), ErrorKind::EmptyTagSet);
    assert_eq!(Error::ProposalNotApproved.kind(), ErrorKind::InvalidProposalState);
    assert_eq!(Error::ProposalInappropriateTemplate.kind(), ErrorKind::InvalidProposalState);
    assert_eq!(Error::NoAvailableId.kind(), ErrorKind::IdExhausted);
    assert_eq!(Error::NoPermission.kind(), ErrorKind::Unauthorized);
    assert_eq!(Error::TemplateNotEmpty.kind(), ErrorKind::NonEmptyTemplate);
}

#[test]
fn defaults() {
    assert_eq!(ProposalState::default(), ProposalState::Approved);
    assert_eq!(Config::default(), push());
    assert_eq!(Pallet::default(), Pallet::new(push()));
    assert_eq!(GenesisConfig::default(), GenesisConfig::new(vec![]));
}

#[test]
fn genesis_registers_tags() {
    let mut l = Pallet::new(push());
    let genesis = GenesisConfig::new(vec![
        (b("dark"), b("m1")),
        (b("light"), b("m2")),
        (b("dark"), b("m3")),
    ]);
    genesis.build(&mut l);
    assert_eq!(l.tags(&b("dark")), Some(TagInfo { metadata: b("m3") }));
    assert_eq!(l.tags(&b("light")), Some(TagInfo { metadata: b("m2") }));
    assert_eq!(l.tags(&b("grey")), None);
    refused(&mut l, |l| l.create_interpretation_tag(b("light"), b("m")), Error::TagAlreadyExists);
}

#[test]
fn calls_are_dispatched() {
    let mut l = Pallet::new(push());
    assert_eq!(
        l.dispatch(ISSUER, Call::CreateInterpretationTag { tag: b("dark"), metadata: b("m") }),
        Ok(Event::InterpretationTagCreated { tag: b("dark") })
    );
    assert_eq!(
        l.dispatch(ISSUER, Call::CreateInterpretationType { name: b("2D"), metadata: b("m") }),
        Ok(Event::InterpretationTypeCreated { name: b("2D"), type_id: 0 })
    );
    assert_eq!(
        l.dispatch(
            ISSUER,
            Call::CreateInterpretation {
                interpretation_type: b("2D"),
                name: b("sprite"),
                src: None,
                metadata: None,
            },
        ),
        Ok(Event::InterpretationCreated { name: b("sprite"), interpretation_id: 0 })
    );
    assert_eq!(
        l.dispatch(
            ISSUER,
            Call::CreateTemplate {
                template_name: b("T"),
                metadata: b("m"),
                max: None,
                interpretations: vec![Interpretation {
                    tags: tags(&["dark"]),
                    interpretation: info("a", "s", "m"),
                }],
            },
        ),
        Ok(Event::TemplateCreated { template_name: b("T"), template_id: 0 })
    );
    assert_eq!(
        l.dispatch(
            ISSUER,
            Call::MintItemFromTemplate { owner: HOLDER, template_id: 0, metadata: b("i") },
        ),
        Ok(Event::ItemMinted { template_id: 0, item_id: 0 })
    );
    assert_eq!(
        l.dispatch(OTHER, Call::AcceptItemUpdate { template_id: 0, item_id: 0 }),
        Err(Error::NoPermission)
    );
    assert_eq!(
        l.dispatch(HOLDER, Call::AcceptItemUpdate { template_id: 0, item_id: 0 }),
        Ok(Event::ItemUpdated { template_id: 0, item_id: 0 })
    );
    assert_eq!(
        l.dispatch(
            OTHER,
            Call::SubmitTemplateChangeProposal {
                author: OTHER,
                template_id: 0,
                change_set: vec![Change::Modify { interpretations: vec![info("a", "s2", "m2")] }],
            },
        ),
        Ok(Event::ProposalSubmitted { proposal_id: 0 })
    );
    assert_eq!(
        l.dispatch(ISSUER, Call::RejectProposal { proposal_id: 0 }),
        Ok(Event::ProposalRejected { proposal_id: 0 })
    );
    assert_eq!(
        l.dispatch(ISSUER, Call::UpdateTemplate { template_id: 0, proposal_id: 0 }),
        Err(Error::ProposalNotApproved)
    );
    assert_eq!(
        l.dispatch(ISSUER, Call::ApproveProposal { proposal_id: 0 }),
        Ok(Event::ProposalApproved { proposal_id: 0 })
    );
    assert_eq!(
        l.dispatch(ISSUER, Call::UpdateTemplate { template_id: 0, proposal_id: 0 }),
        Ok(Event::TemplateUpdated { template_id: 0 })
    );
    assert!(l.resources(0, 0, &b("a")).unwrap().pending);
    assert_eq!(
        l.dispatch(HOLDER, Call::UpdateItem { template_id: 0, item_id: 0 }),
        Ok(Event::ItemUpdated { template_id: 0, item_id: 0 })
    );
    assert_eq!(l.resources(0, 0, &b("a")), Some(applied("a", "s2", "m2")));
    assert_eq!(
        l.dispatch(HOLDER, Call::TransferItem { template_id: 0, item_id: 0, destination: OTHER }),
        Ok(Event::ItemTransfered { template_id: 0, item_id: 0, destination: OTHER })
    );
    assert_eq!(l.owner(0, 0), Some(OTHER));
    assert_eq!(
        l.dispatch(ISSUER, Call::DestroyTemplate { template_id: 0 }),
        Err(Error::TemplateNotEmpty)
    );
    assert_eq!(
        l.dispatch(OTHER, Call::BurnItem { template_id: 0, item_id: 0 }),
        Ok(Event::ItemBurned { template_id: 0, item_id: 0 })
    );
    assert_eq!(
        l.dispatch(ISSUER, Call::DestroyTemplate { template_id: 0 }),
        Ok(Event::TemplateDestroyed { template_id: 0 })
    );
    assert_eq!(l.issuer(0), None);
}

#[test]
fn a_set_of_tags_holds_each_name_once() {
    let mut t = Tags::new();
    assert!(t.is_empty());
    assert_eq!(t.len(), 0);
    t.insert(b("dark"));
    t.insert(b("light"));
    t.insert(b("dark"));
    assert!(!t.is_empty());
    assert_eq!(t.len(), 2);
    assert!(t.contains(&b("dark")));
    assert!(t.contains(&b("light")));
    assert!(!t.contains(&b("dar")));
    assert_eq!(t.name(0), &b("dark"));
    assert_eq!(t.name(1), &b("light"));
    assert_eq!(t.clone(), t);
}

#[test]
fn a_set_of_tags_does_not_depend_on_the_order_of_its_making() {
    let a = tags(&["weapon", "dark", "weaponry", "", "Dark"]);
    let c = tags(&["", "Dark", "dark", "weapon", "weaponry", "dark"]);
    assert_eq!(a, c);
    assert!(a.same(&c));
    assert_eq!(a.len(), 5);
    assert_eq!(a.name(0), &b(""));
    assert_eq!(a.name(1), &b("Dark"));
    assert_eq!(a.name(2), &b("dark"));
    assert_eq!(a.name(3), &b("weapon"));
    assert_eq!(a.name(4), &b("weaponry"));
    let d = tags(&["weapon", "dark"]);
    assert!(!a.same(&d));
    assert!(!d.same(&tags(&["weapon", "dar"])));
    assert!(!d.same(&tags(&["weapon", "darker"])));
    assert!(d.same(&tags(&["dark", "weapon"])));
    assert!(Tags::new().same(&Tags::new()));
    assert!(!Tags::new().same(&d));
}

#[test]
fn byte_strings_stand_in_the_order_of_dictionaries() {
    assert_eq!(standing(&b(""), &b("")), Standing::Same);
    assert_eq!(standing(&b(""), &b("a")), Standing::Before);
    assert_eq!(standing(&b("a"), &b("")), Standing::Behind);
    assert_eq!(standing(&b("abc"), &b("abd")), Standing::Before);
    assert_eq!(standing(&b("abd"), &b("abc")), Standing::Behind);
    assert_eq!(standing(&b("ab"), &b("abc")), Standing::Before);
    assert_eq!(standing(&b("abc"), &b("ab")), Standing::Behind);
    assert_eq!(standing(&b("abc"), &b("abc")), Standing::Same);
    assert_eq!(standing(&b("b"), &b("abc")), Standing::Behind);
    assert_eq!(standing(&vec![0, 255], &vec![1, 0]), Standing::Before);
}

#[test]
fn a_game_starts_with_nothing() {
    let game = GameDetails::default();
    assert_eq!(
        game.destroy_witness(),
        DestroyWitness { instances: 0, instance_metadatas: 0, attributes: 0 }
    );
    assert_eq!(game.templates, None);
    assert!(!game.is_frozen);
}

#[test]
fn the_witness_of_a_game_has_its_counts() {
    let game = GameDetails {
        owner: 1,
        issuers: vec![1],
        admins: vec![1, 2],
        freezers: vec![],
        price: Some(100),
        instances: 3,
        instance_metadatas: 2,
        attributes: 7,
        is_frozen: false,
        templates: None,
        assets: None,
        allow_unprivileged_mint: false,
    };
    assert_eq!(
        game.destroy_witness(),
        DestroyWitness { instances: 3, instance_metadatas: 2, attributes: 7 }
    );
}
