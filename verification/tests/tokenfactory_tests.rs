use osmo_bindings::tokenfactory::{
    burn_tokens, change_admin, create_denom, mint_tokens, validate_denom, TokenFactoryError,
};
use osmo_bindings::{ContractError, OsmosisModule, OsmosisMsg};

const MOCK_CONTRACT_ADDR: &str = "cosmos2contract";
const DENOM_NAME: &str = "mydenom";
const DENOM_PREFIX: &str = "factory";

#[test]
fn msg_create_denom_success() {
    let subdenom = String::from(DENOM_NAME);
    let msg = create_denom(subdenom).unwrap();
    assert_eq!(
        msg,
        OsmosisMsg::CreateDenom { subdenom: String::from(DENOM_NAME) }
    );
}

#[test]
fn msg_create_denom_invalid_subdenom() {
    let subdenom = String::from("");
    let err = create_denom(subdenom).unwrap_err();
    assert_eq!(
        err,
        TokenFactoryError::InvalidSubdenom { subdenom: String::from("") }
    );
}

#[test]
fn msg_change_admin_success() {
    const NEW_ADMIN_ADDR: &str = "newadmin";
    let full_denom_name = format!("{}/{}/{}", DENOM_PREFIX, MOCK_CONTRACT_ADDR, DENOM_NAME);
    let msg = change_admin(full_denom_name.clone(), String::from(NEW_ADMIN_ADDR)).unwrap();
    assert_eq!(
        msg,
        OsmosisMsg::ChangeAdmin {
            denom: full_denom_name,
            new_admin_address: String::from(NEW_ADMIN_ADDR),
        }
    );
}

#[test]
fn msg_validate_denom_too_many_parts_valid() {
    let full_denom_name = format!("{}/{}/{}", DENOM_PREFIX, MOCK_CONTRACT_ADDR, DENOM_NAME);
    validate_denom(&full_denom_name).unwrap();
}

#[test]
fn msg_validate_denom_parts_returned() {
    let full_denom_name = format!("{}/{}/{}", DENOM_PREFIX, MOCK_CONTRACT_ADDR, DENOM_NAME);
    let (creator, subdenom) = validate_denom(&full_denom_name).unwrap();
    assert_eq!(creator, MOCK_CONTRACT_ADDR);
    assert_eq!(subdenom, DENOM_NAME);
}

#[test]
fn msg_validate_denom_prefix_case_insensitive() {
    let full_denom_name = format!("{}/{}/{}", "FaCtOrY", MOCK_CONTRACT_ADDR, DENOM_NAME);
    validate_denom(&full_denom_name).unwrap();
}

#[test]
fn msg_change_admin_invalid_denom() {
    const NEW_ADMIN_ADDR: &str = "newadmin";
    let full_denom_name = format!(
        "{}/{}/{}/invalid",
        DENOM_PREFIX, MOCK_CONTRACT_ADDR, DENOM_NAME
    );
    let err = change_admin(full_denom_name.clone(), String::from(NEW_ADMIN_ADDR)).unwrap_err();
    let expected_error = TokenFactoryError::InvalidDenom {
        denom: full_denom_name,
        message: String::from("denom must have 3 parts separated by /, had 4"),
    };
    assert_eq!(expected_error, err);
}

#[test]
fn msg_mint_tokens_success() {
    const NEW_ADMIN_ADDR: &str = "newadmin";
    let mint_amount = 100u128;
    let full_denom_name = format!("{}/{}/{}", DENOM_PREFIX, MOCK_CONTRACT_ADDR, DENOM_NAME);
    let msg = mint_tokens(
        full_denom_name.clone(),
        mint_amount,
        String::from(NEW_ADMIN_ADDR),
    )
    .unwrap();
    assert_eq!(
        msg,
        OsmosisMsg::MintTokens {
            denom: full_denom_name,
            amount: mint_amount,
            mint_to_address: String::from(NEW_ADMIN_ADDR),
        }
    );
}

#[test]
fn msg_mint_invalid_denom() {
    const NEW_ADMIN_ADDR: &str = "newadmin";
    let mint_amount = 100u128;
    let full_denom_name = format!("{}/{}", DENOM_PREFIX, MOCK_CONTRACT_ADDR);
    let err = mint_tokens(
        full_denom_name.clone(),
        mint_amount,
        String::from(NEW_ADMIN_ADDR),
    )
    .unwrap_err();
    let expected_error = TokenFactoryError::InvalidDenom {
        denom: full_denom_name,
        message: String::from("denom must have 3 parts separated by /, had 2"),
    };
    assert_eq!(expected_error, err);
}

#[test]
fn msg_mint_zero_amount() {
    let full_denom_name = format!("{}/{}/{}", DENOM_PREFIX, MOCK_CONTRACT_ADDR, DENOM_NAME);
    let err = mint_tokens(full_denom_name, 0, String::from("newadmin")).unwrap_err();
    assert_eq!(err, TokenFactoryError::ZeroAmount);
}

#[test]
fn msg_burn_tokens_success() {
    let burn_amount = 100u128;
    let full_denom_name = format!("{}/{}/{}", DENOM_PREFIX, MOCK_CONTRACT_ADDR, DENOM_NAME);
    let msg = burn_tokens(full_denom_name.clone(), burn_amount, String::from("")).unwrap();
    assert_eq!(
        msg,
        OsmosisMsg::BurnTokens {
            denom: full_denom_name,
            amount: burn_amount,
            burn_from_address: String::from(""),
        }
    );
}

#[test]
fn msg_burn_tokens_input_adddress() {
    const BURN_FROM_ADDR: &str = "burnfrom";
    let burn_amount = 100u128;
    let full_denom_name = format!("{}/{}/{}", DENOM_PREFIX, MOCK_CONTRACT_ADDR, DENOM_NAME);
    let err = burn_tokens(
        full_denom_name,
        burn_amount,
        String::from(BURN_FROM_ADDR),
    )
    .unwrap_err();
    let expected_error = TokenFactoryError::BurnFromAddressNotSupported {
        address: String::from(BURN_FROM_ADDR),
    };
    assert_eq!(expected_error, err);
}

#[test]
fn msg_validate_denom_too_many_parts_invalid() {
    let full_denom_name = format!(
        "{}/{}/{}/invalid",
        DENOM_PREFIX, MOCK_CONTRACT_ADDR, DENOM_NAME
    );
    let err = validate_denom(&full_denom_name).unwrap_err();
    let expected_error = TokenFactoryError::InvalidDenom {
        denom: full_denom_name,
        message: String::from("denom must have 3 parts separated by /, had 4"),
    };
    assert_eq!(expected_error, err);
}

#[test]
fn msg_validate_denom_not_enough_parts_invalid() {
    let full_denom_name = format!("{}/{}", DENOM_PREFIX, MOCK_CONTRACT_ADDR);
    let err = validate_denom(&full_denom_name).unwrap_err();
    let expected_error = TokenFactoryError::InvalidDenom {
        denom: full_denom_name,
        message: String::from("denom must have 3 parts separated by /, had 2"),
    };
    assert_eq!(expected_error, err);
}

#[test]
fn msg_validate_denom_denom_prefix_invalid() {
    let full_denom_name = format!("{}/{}/{}", "invalid", MOCK_CONTRACT_ADDR, DENOM_NAME);
    let err = validate_denom(&full_denom_name).unwrap_err();
    let expected_error = TokenFactoryError::InvalidDenom {
        denom: full_denom_name,
        message: String::from("prefix must be 'factory', was invalid"),
    };
    assert_eq!(expected_error, err);
}

#[test]
fn build_denom_assembles_and_checks() {
    let module = OsmosisModule {};
    let denom = module.build_denom("govner", "fundz").unwrap();
    assert_eq!(denom, "factory/govner/fundz");
    assert!(denom.len() > 10);

    // a slash inside the creator address is refused
    let err = module.build_denom("gov/ner", "fundz").unwrap_err();
    assert_eq!(
        err,
        ContractError::InvalidFullDenom { full_denom: String::from("factory/gov/ner/fundz") }
    );

    // an over-long subdenom is refused
    let long = "x".repeat(45);
    let err = module.build_denom("govner", &long).unwrap_err();
    assert_eq!(
        err,
        ContractError::InvalidFullDenom {
            full_denom: format!("factory/govner/{}", long)
        }
    );

    // the empty subdenom is valid
    let denom = module.build_denom("govner", "").unwrap();
    assert_eq!(denom, "factory/govner/");
}

#[test]
fn msg_builders() {
    let msg = OsmosisMsg::mint_contract_tokens(
        String::from("factory/a/b"),
        5,
        String::from("rcpt"),
    );
    assert_eq!(
        msg,
        OsmosisMsg::MintTokens {
            denom: String::from("factory/a/b"),
            amount: 5,
            mint_to_address: String::from("rcpt"),
        }
    );
    // the burn-from address is disabled and always sent empty
    let msg = OsmosisMsg::burn_contract_tokens(
        String::from("factory/a/b"),
        5,
        String::from("ignored"),
    );
    assert_eq!(
        msg,
        OsmosisMsg::BurnTokens {
            denom: String::from("factory/a/b"),
            amount: 5,
            burn_from_address: String::from(""),
        }
    );
}
