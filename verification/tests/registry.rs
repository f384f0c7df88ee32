use defi::dex::{Dex, TradingPairInfo};
use defi::orderbook::OrderError;
use defi::decimal::Decimal;
use defi::resource::{ComponentAddress, Proof, ResourceAddress, ResourceType};

#[test]
fn register_lists_each_pair_once() {
    let fungible = ResourceType::Fungible { divisibility: 18 };
    let mut dex = Dex::instantiate(ResourceAddress(9));
    let admin = Proof { resource: ResourceAddress(9), amount: Decimal(1) };
    let stranger = Proof { resource: ResourceAddress(8), amount: Decimal(1) };
    let fungible2 = ResourceType::Fungible { divisibility: 18 };
    assert_eq!(
        dex.add_trading_pair(stranger, ResourceAddress(1), fungible2, ResourceAddress(2), fungible2, ComponentAddress(10)).err(),
        Some(OrderError::Unauthorized)
    );
    assert!(dex.get_trading_pairs().is_empty());
    dex.add_trading_pair(admin, ResourceAddress(1), fungible, ResourceAddress(2), fungible, ComponentAddress(10)).unwrap();
    assert_eq!(
        dex.add_trading_pair(admin, ResourceAddress(1), fungible, ResourceAddress(2), fungible, ComponentAddress(11)).err(),
        Some(OrderError::TradingPairExists)
    );
    // the reverse pair is another pair
    dex.add_trading_pair(admin, ResourceAddress(2), fungible, ResourceAddress(1), fungible, ComponentAddress(12)).unwrap();
    assert_eq!(
        dex.add_trading_pair(admin, ResourceAddress(3), ResourceType::NonFungible, ResourceAddress(1), fungible, ComponentAddress(13))
            .err(),
        Some(OrderError::NonFungibleResource)
    );
    assert_eq!(dex.get_trading_pair_component_address(ResourceAddress(1), ResourceAddress(2)), Some(ComponentAddress(10)));
    assert_eq!(dex.get_trading_pair_component_address(ResourceAddress(2), ResourceAddress(1)), Some(ComponentAddress(12)));
    assert_eq!(dex.get_trading_pair_component_address(ResourceAddress(1), ResourceAddress(3)), None);
    assert_eq!(
        dex.get_trading_pairs(),
        vec![
            TradingPairInfo {
                base_resource_address: ResourceAddress(1),
                quote_resource_address: ResourceAddress(2),
                component_address: ComponentAddress(10)
            },
            TradingPairInfo {
                base_resource_address: ResourceAddress(2),
                quote_resource_address: ResourceAddress(1),
                component_address: ComponentAddress(12)
            },
        ]
    );
}
