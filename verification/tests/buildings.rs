use scalar::buildings::{
    has_image_data, mine_into_output, self_fuel, store_image_data, sum_image_data, tick_status,
    transmit_image_data, Building, FuelSlot, ImageData, OutputSlot, ProcessingStatus,
};
use scalar::inventory::{Item, ItemStack};

#[test]
fn building_names_and_assets() {
    assert_eq!(Building::Miner.name(), "Miner");
    assert_eq!(Building::Processor.name(), "Processor");
    assert_eq!(Building::SatelliteDish.name(), "Satellite Dish");
    assert_eq!(Building::Miner.asset(), "models/miner.glb");
    assert_eq!(Building::Processor.asset(), "models/processor.glb");
    assert_eq!(Building::SatelliteDish.asset(), "models/satellite_dish.glb");
    assert_eq!(
        Building::Processor.description(),
        "Generates image data. Powered by clean coal."
    );
    assert_eq!(
        Building::all(),
        vec![Building::Miner, Building::Processor, Building::SatelliteDish]
    );
}

#[test]
fn building_costs() {
    assert_eq!(
        Building::Miner.cost(),
        vec![
            ItemStack { item: Item::Stone, count: 1 },
            ItemStack { item: Item::Wood, count: 5 },
            ItemStack { item: Item::Iron, count: 10 },
        ]
    );
    assert_eq!(
        Building::Processor.cost(),
        vec![
            ItemStack { item: Item::Iron, count: 10 },
            ItemStack { item: Item::Copper, count: 10 },
        ]
    );
    assert_eq!(
        Building::SatelliteDish.cost(),
        vec![
            ItemStack { item: Item::Wood, count: 10 },
            ItemStack { item: Item::Iron, count: 20 },
            ItemStack { item: Item::Copper, count: 20 },
        ]
    );
}

#[test]
fn status_labels() {
    assert_eq!(ProcessingStatus::Idle.label(), "Idle");
    assert_eq!(ProcessingStatus::Running.label(), "Running");
    assert_eq!(ProcessingStatus::OutOfEnergy.label(), "Out of energy");
    assert_eq!(ProcessingStatus::OutputFull.label(), "Output full");
    assert_eq!(ProcessingStatus::default(), ProcessingStatus::Idle);
}

#[test]
fn tick_status_cases() {
    assert_eq!(tick_status(false, true, true), ProcessingStatus::Idle);
    assert_eq!(tick_status(true, false, true), ProcessingStatus::OutputFull);
    assert_eq!(tick_status(true, true, true), ProcessingStatus::Running);
    assert_eq!(tick_status(true, true, false), ProcessingStatus::OutOfEnergy);
}

#[test]
fn fresh_slots() {
    assert_eq!(
        OutputSlot::new(Item::Copper),
        OutputSlot { stack: ItemStack { item: Item::Copper, count: 0 }, limit: 100 }
    );
    assert_eq!(
        FuelSlot::new(),
        FuelSlot { stack: ItemStack { item: Item::Coal, count: 0 }, limit: 100 }
    );
    assert_eq!(ImageData::new(), ImageData { count: 0, limit: 1000 });
}

#[test]
fn burning_fuel() {
    let mut fuel = FuelSlot::new();
    assert!(!fuel.burn());
    assert_eq!(fuel.stack.count, 0);
    fuel.stack.count = 2;
    assert!(fuel.burn());
    assert_eq!(fuel.stack.count, 1);
}

#[test]
fn self_fueling_on_coal() {
    let fuel = FuelSlot::new();
    let mut coal_out = OutputSlot { stack: ItemStack { item: Item::Coal, count: 3 }, limit: 100 };
    assert!(self_fuel(&fuel, &mut coal_out));
    assert_eq!(coal_out.stack.count, 2);
    let mut iron_out = OutputSlot { stack: ItemStack { item: Item::Iron, count: 3 }, limit: 100 };
    assert!(!self_fuel(&fuel, &mut iron_out));
    assert_eq!(iron_out.stack.count, 3);
    let mut empty = OutputSlot::new(Item::Coal);
    assert!(!self_fuel(&fuel, &mut empty));
}

#[test]
fn mining_limited_by_whole_node_and_room() {
    let mut node = ItemStack { item: Item::Iron, count: 50 };
    let mut out = OutputSlot::new(Item::Iron);
    assert_eq!(mine_into_output(&mut node, &mut out, 3), 3);
    assert_eq!((node.count, out.stack.count), (47, 3));

    let mut small = ItemStack { item: Item::Iron, count: 2 };
    assert_eq!(mine_into_output(&mut small, &mut out, 5), 2);
    assert_eq!((small.count, out.stack.count), (0, 5));

    out.stack.count = 98;
    assert_eq!(mine_into_output(&mut node, &mut out, 10), 2);
    assert_eq!((node.count, out.stack.count), (45, 100));
}

#[test]
fn processor_storage_limited() {
    let mut data = ImageData::new();
    assert_eq!(store_image_data(&mut data, 100), 100);
    data.count = 990;
    assert_eq!(store_image_data(&mut data, 100), 10);
    assert_eq!(data.count, 1000);
}

#[test]
fn image_data_totals() {
    let sources = vec![
        ImageData { count: 3, limit: 1000 },
        ImageData { count: 0, limit: 1000 },
        ImageData { count: 7, limit: 1000 },
    ];
    assert_eq!(sum_image_data(&sources), 10);
    assert!(has_image_data(&sources));
    let empty = vec![ImageData { count: 0, limit: 1000 }];
    assert!(!has_image_data(&empty));
    assert!(!has_image_data(&Vec::new()));
}

#[test]
fn transmitting_pays_and_drains() {
    let mut sources = vec![
        ImageData { count: 3, limit: 1000 },
        ImageData { count: 0, limit: 1000 },
        ImageData { count: 7, limit: 1000 },
    ];
    let mut money = 5;
    let mut rng = fastrand::Rng::with_seed(1);
    let amount = transmit_image_data(&mut sources, 4, &mut money, &mut rng);
    assert_eq!(amount, 4);
    assert_eq!(money, 9);
    assert_eq!(sum_image_data(&sources), 6);
    assert_eq!(sources[1].count, 0);
    assert!(sources[0].count <= 3 && sources[2].count <= 7);

    let amount = transmit_image_data(&mut sources, 100, &mut money, &mut rng);
    assert_eq!(amount, 6);
    assert_eq!(money, 15);
    assert!(sources.iter().all(|s| s.count == 0));
}
