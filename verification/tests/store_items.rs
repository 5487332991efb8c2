use fs_mod_parser::errors::AbstractFileError;
use fs_mod_parser::store_item::{Capability, StoreItem, StoreItemType};
use fs_mod_parser::store_item::placeable::{Ingredient, ObjectStorage, Storage};
use fs_mod_parser::store_item::vehicle::{Combo, FillUnit};

fn xml_test(text: &str) -> String {
    format!("<?xml version=\"1.0\" ?>\n{text}")
}

fn strings(list: &[&str]) -> Vec<String> {
    list.iter().map(|s| s.to_string()).collect()
}

fn storage(is_object: Option<ObjectStorage>, capacity: u32, categories: &[&str], types: &[&str]) -> Storage {
    Storage { is_object, capacity, categories: strings(categories), types: strings(types) }
}

#[test]
fn neither_type() {
    let xml = r#"<?xml version=\"1.0\" ?><poop type="trailer"></poop>"#;
    let actual = StoreItem::from_string(xml);

    assert!(matches!(actual, Err(AbstractFileError::XmlWrongFileType)));
}

// placeables

#[test]
fn placeable_icon_mapping() {
    let xml = xml_test(r#"
        <placeable>
            <storeData><image>$data/path/to/data/file.png</image></storeData>
        </placeable>"#);
    let actual = StoreItem::from_string(xml.as_ref()).unwrap();
    let placeable = actual.placeable.unwrap();

    assert_eq!(placeable.icon_base, Some(String::from("path/to/data/file.dds")));
    assert!(placeable.icon_file.is_none());

    let xml = xml_test(r#"
            <placeable>
                <storeData><image>local/path/to/data/file.png</image></storeData>
            </placeable>"#);
    let actual = StoreItem::from_string(xml.as_ref()).unwrap();
    let placeable = actual.placeable.unwrap();

    assert_eq!(placeable.icon_file, Some(String::from("local/path/to/data/file.dds")));
    assert!(placeable.icon_base.is_none());

    let xml = xml_test(r#"
            <placeable>
                <storeData><image></image></storeData>
            </placeable>"#);
    let actual = StoreItem::from_string(xml.as_ref()).unwrap();
    let placeable = actual.placeable.unwrap();

    assert_eq!(placeable.icon_file, Some(String::from("")));
    assert!(placeable.icon_base.is_none());
}

#[test]
fn show_in_store() {
    let xml = xml_test(r#"<placeable>
            <storeData><showInStore>true</showInStore></storeData>
        </placeable>"#);
    let actual = StoreItem::from_string(xml.as_ref()).unwrap();
    let place = actual.placeable.unwrap();

    assert_eq!(place.show_in_store, true);

    let xml = xml_test(r#"<placeable>
            <storeData><showInStore>false</showInStore></storeData>
        </placeable>"#);
    let actual = StoreItem::from_string(xml.as_ref()).unwrap();
    let place = actual.placeable.unwrap();

    assert_eq!(place.show_in_store, false);
}

#[test]
fn beehive() {
    let xml = xml_test(r#"<placeable>
            <beehive actionRadius="50" litersHoneyPerDay="20"></beehive>
        </placeable>"#);
    let actual = StoreItem::from_string(xml.as_ref()).unwrap();
    let place = actual.placeable.unwrap();

    assert_eq!(place.animals.beehive_per_day, Some(20));
    assert_eq!(place.animals.beehive_radius, Some(50));
}

#[test]
fn husbandry() {
    let xml = xml_test(r#"<placeable>
            <husbandry saveId="Animals_COW" hasStatistics="false">
                <animals type="COW" maxNumAnimals="200" maxNumVisualAnimals="50"></animals>
                <food capacity="150750"></food>
                <storage node="robotys" fillTypes="LIQUIDMANURE BUFFALOMILK MILK STRAW MANURE" isExtension="false">
                    <capacity fillType="LIQUIDMANURE" capacity="156250" />
                    <capacity fillType="MILK" capacity="133750" />
                    <capacity fillType="BUFFALOMILK" capacity="133750" />
                    <capacity fillType="STRAW" capacity="121375" />
                    <capacity fillType="MANURE" capacity="0" />
                </storage>
            </husbandry>
        </placeable>"#);
    let actual = StoreItem::from_string(xml.as_ref()).unwrap();
    let place = actual.placeable.unwrap();

    let expected = vec![
        storage(None, 156_250, &[], &["liquidmanure"]),
        storage(None, 133_750, &[], &["milk"]),
        storage(None, 133_750, &[], &["buffalomilk"]),
        storage(None, 121_375, &[], &["straw"]),
    ];

    assert_eq!(place.animals.husbandry_count, Some(200));
    assert_eq!(place.animals.husbandry_food, Some(150750));
    assert_eq!(place.animals.husbandry_type, Some(String::from("COW")));
    assert_eq!(place.storage, expected);
}

#[test]
fn income_from_22() {
    let xml = xml_test(r#"<placeable>
            <incomePerHour>372</incomePerHour>
        </placeable>"#);
    let actual = StoreItem::from_string(xml.as_ref()).unwrap();
    let place = actual.placeable.unwrap();

    assert_eq!(place.sorting.income_per_hour, 372);
}

#[test]
fn income_from_25() {
    let xml = xml_test(r#"<placeable>
            <solarPanels>
                <solarPanelsConfigurations>
                    <solarPanelsConfiguration name="$l10n_ui_no" isActive="false">
                        <objectChange node="solarPanels" visibilityActive="false"/>
                    </solarPanelsConfiguration>
                    <solarPanelsConfiguration name="$l10n_ui_yes" isActive="true" price="35000" incomePerHour="100"/>
                </solarPanelsConfigurations>
            </solarPanels>
        </placeable>"#);
    let actual = StoreItem::from_string(xml.as_ref()).unwrap();
    let place = actual.placeable.unwrap();

    assert_eq!(place.sorting.income_per_hour, 100);
}

#[test]
fn parent_file() {
    let xml = xml_test(r#"<placeable>
            <parentFile xmlFilename="$data/path/to/file.xml"></parentFile>
        </placeable>"#);
    let actual = StoreItem::from_string(xml.as_ref()).unwrap();
    let place = actual.placeable.unwrap();

    assert_eq!(place.parent_item, Some(String::from("$data/path/to/file.xml")));
}

#[test]
fn silo() {
    let xml = xml_test(r#"<placeable>
            <silo>
                <storages>
                    <storage node="storage" fillTypeCategories="farmSilo" capacity="980000" isExtension="false"/>
                </storages>
            </silo>
        </placeable>"#);
    let actual = StoreItem::from_string(xml.as_ref()).unwrap();
    let place = actual.placeable.unwrap();

    let expected = vec![storage(None, 980_000, &["farmsilo"], &[])];

    assert_eq!(place.storage, expected);
}

#[test]
fn silo_extension() {
    let xml = xml_test(r#"<placeable>
            <siloExtension>
                <storage node="storage" fillTypeCategories="farmSilo" capacity="250000" isExtension="true"/>
            </siloExtension>
        </placeable>"#);
    let actual = StoreItem::from_string(xml.as_ref()).unwrap();
    let place = actual.placeable.unwrap();

    let expected = vec![storage(None, 250_000, &["farmsilo"], &[])];

    assert_eq!(place.storage, expected);
}

#[test]
fn object_storage() {
    let xml = xml_test(r#"<placeable>
            <objectStorage supportsBales="true" supportsPallets="true" maxLength="8.5" maxWidth="6" maxHeight="3.5">
            </objectStorage>
        </placeable>"#);
    let actual = StoreItem::from_string(xml.as_ref()).unwrap();
    let place = actual.placeable.unwrap();

    let expected = vec![storage(Some(ObjectStorage::Both), 250, &[], &[])];

    assert_eq!(place.storage, expected);
}

#[test]
fn production_silo() {
    let xml = xml_test(r#"<placeable>
            <productionPoint>
                <storage isExtension="false" fillLevelSyncThreshold="50">
                    <capacity fillType="POTATO"   capacity="1000000" />
                    <capacity fillType="SUGARBEET_CUT"   capacity="2000000" />
                    <capacity fillType="SUGARBEET"   capacity="1000000" />
                </storage>
            </productionPoint>
        </placeable>"#);
    let actual = StoreItem::from_string(xml.as_ref()).unwrap();
    let place = actual.placeable.unwrap();

    let expected = vec![
        storage(None, 1_000_000, &[], &["potato"]),
        storage(None, 2_000_000, &[], &["sugarbeet_cut"]),
        storage(None, 1_000_000, &[], &["sugarbeet"]),
    ];

    assert_eq!(place.storage, expected);
}

#[test]
fn production_params() {
    let xml = xml_test(r#"<placeable>
            <productionPoint>
                <production id="fabric_cotton" name="%s %s" params="$l10n_fillType_fabric|$l10n_fillType_cotton" cyclesPerMinute="4" costsPerActiveMinute="3">
                <inputs><input fillType="COTTON" amount="5" /></inputs>
                <outputs><output fillType="FABRIC" amount="3" /></outputs>
            </production>
            </productionPoint>
        </placeable>"#);
    let actual = StoreItem::from_string(xml.as_ref()).unwrap();
    let place = actual.placeable.unwrap();

    assert_eq!(place.productions[0].params, Some(vec![String::from("$l10n_fillType_fabric"), String::from("$l10n_fillType_cotton")]));
    assert_eq!(place.productions[0].output, vec![Ingredient { fill_type: String::from("fabric"), quantity: 3, factor: None }]);
    assert_eq!(place.productions[0].recipe[0], vec![Ingredient { fill_type: String::from("cotton"), quantity: 5, factor: None }]);
}

// vehicles

#[test]
fn vehicle_icon_mapping() {
    let xml = xml_test(r#"
        <vehicle>
            <storeData><image>$data/path/to/data/file.png</image></storeData>
        </vehicle>"#);
    let actual = StoreItem::from_string(xml.as_ref()).unwrap();
    let vehicle = actual.vehicle.unwrap();

    assert_eq!(vehicle.icon_base, Some(String::from("path/to/data/file.dds")));
    assert!(vehicle.icon_file.is_none());

    let xml = xml_test(r#"
            <vehicle>
                <storeData><image>local/path/to/data/file.png</image></storeData>
            </vehicle>"#);
    let actual = StoreItem::from_string(xml.as_ref()).unwrap();
    let vehicle = actual.vehicle.unwrap();

    assert_eq!(vehicle.icon_file, Some(String::from("local/path/to/data/file.dds")));
    assert!(vehicle.icon_base.is_none());

    let xml = xml_test(r#"
            <vehicle>
                <storeData><image></image></storeData>
            </vehicle>"#);
    let actual = StoreItem::from_string(xml.as_ref()).unwrap();
    let vehicle = actual.vehicle.unwrap();

    assert_eq!(vehicle.icon_file, Some(String::from("")));
    assert!(vehicle.icon_base.is_none());
}

#[test]
fn spray_types() {
    let xml = xml_test(r#"
        <vehicle><sprayer><sprayTypes>
            <sprayType foldingConfigurationIndex="1" fillTypes="fertilizer unknown">
                <usageScales workingWidth="10" />
            </sprayType>
            <sprayType foldingConfigurationIndex="1" fillTypes="lime">
                <usageScales workingWidth="20" />
            </sprayType>
        </sprayTypes></sprayer></vehicle>"#);
    let actual = StoreItem::from_string(xml.as_ref()).unwrap();
    let vehicle = actual.vehicle.unwrap();

    assert_eq!(vehicle.sprays.len(), 2);
    assert_eq!(vehicle.sprays[0].fills, Some(vec![String::from("fertilizer")]));
    assert_eq!(vehicle.sprays[0].width.as_ref().map(|w| w.parse::<f32>().unwrap_or_default()), Some(10.0));
    assert_eq!(vehicle.sprays[1].fills, Some(vec![String::from("lime")]));
    assert_eq!(vehicle.sprays[1].width.as_ref().map(|w| w.parse::<f32>().unwrap_or_default()), Some(20.0));
}

#[test]
fn spray_types_failures() {
    let xml = xml_test(r#"
        <vehicle><sprayer><sprayTypes>
            <garbageTag></garbageTag>
            <sprayType foldingConfigurationIndex="1" fillTypes="lime">
                <usageScales workingWidth="20" />"#);
    let actual = StoreItem::from_string(xml.as_ref());

    assert!(matches!(actual, Err(AbstractFileError::XmlParseError)));
}

#[test]
fn new_style_color() {
    let xml = xml_test(r#"
            <vehicle>
                <baseColorConfigurations useDefaultColors="true" defaultColorMaterialTemplateName="calibratedGlossPaint">
                    <baseColorConfiguration color="JCB_YELLOW1" />
                </baseColorConfigurations>
                <designColorConfigurations useDefaultColors="true" defaultColorMaterialTemplateName="calibratedGlossPaint" title="$l10n_configuration_grillColor">
                    <designColorConfiguration color="JCB_YELLOW1"/>
                </designColorConfigurations>
            </vehicle>"#);
    let actual = StoreItem::from_string(xml.as_ref()).unwrap();
    let vehicle = actual.vehicle.unwrap();

    assert_eq!(vehicle.flags.color, Capability::Yes);
}

#[test]
fn fill_types() {
    let xml = xml_test(r#"
        <vehicle><fillUnit><fillUnitConfigurations>
            <fillUnitConfiguration>
                <fillUnits>
                    <fillUnit fillTypes="fertilizer lime" capacity="15000"></fillUnit>
                </fillUnits>
            </fillUnitConfiguration>
            <fillUnitConfiguration>
                <fillUnits>
                    <fillUnit fillTypes="fertilizer" capacity="8000"></fillUnit>
                    <fillUnit fillTypes="seeds" capacity="3000"></fillUnit>
                </fillUnits>
            </fillUnitConfiguration>
            <fillUnitConfiguration>
                <fillUnits>
                    <fillUnit fillTypeCategories="SHOVEL" capacity="1000" ></fillUnit>
                    <fillUnit fillTypeCategories="SHOVEL" capacity="10000" showInShop="false" showOnHud="false"/>
                </fillUnits>
            </fillUnitConfiguration>
        </fillUnitConfigurations></fillUnit></vehicle>"#);
    let actual = StoreItem::from_string(xml.as_ref()).unwrap();
    let vehicle = actual.vehicle.unwrap();

    let expected = vec![
        vec![
            FillUnit { categories: vec![], types: strings(&["fertilizer", "lime"]), capacity: 15000 },
        ],
        vec![
            FillUnit { categories: vec![], types: strings(&["fertilizer"]), capacity: 8000 },
            FillUnit { categories: vec![], types: strings(&["seeds"]), capacity: 3000 },
        ],
        vec![
            FillUnit { categories: strings(&["SHOVEL"]), types: vec![], capacity: 1000 },
        ],
    ];

    assert_eq!(vehicle.fills, expected);
}

// further cases

#[test]
fn vehicle_item_type_and_sorting() {
    let xml = xml_test(r#"
        <vehicle type="trailer">
            <storeData>
                <name>Big Trailer</name>
                <brand>LIZARD</brand>
                <category>trailers</category>
                <price>12000</price>
                <year>2019</year>
                <functions><function>$l10n_function_trailer</function></functions>
                <specs><power>150</power><neededPower>90</neededPower><workingWidth>3.5</workingWidth></specs>
            </storeData>
        </vehicle>"#);
    let actual = StoreItem::from_string(xml.as_ref()).unwrap();
    assert_eq!(actual.item_type, StoreItemType::Vehicle);
    assert!(actual.placeable.is_none());
    let vehicle = actual.vehicle.unwrap();

    assert_eq!(vehicle.sorting.type_label, Some(String::from("trailer")));
    assert_eq!(vehicle.sorting.name, Some(String::from("Big Trailer")));
    assert_eq!(vehicle.sorting.brand, Some(String::from("LIZARD")));
    assert_eq!(vehicle.sorting.category, Some(String::from("trailers")));
    assert_eq!(vehicle.sorting.price, Some(12000));
    assert_eq!(vehicle.sorting.year, Some(2019));
    assert_eq!(vehicle.sorting.functions, strings(&["$l10n_function_trailer"]));
    assert_eq!(vehicle.sorting.power, Some(150));
    assert_eq!(vehicle.sorting.needed_power, Some(90));
    assert_eq!(vehicle.sorting.working_width, Some(String::from("3.5")));
}

#[test]
fn vehicle_joints_sorted_once() {
    let xml = xml_test(r#"
        <vehicle>
            <attacherJoints>
                <attacherJoint jointType="trailer"></attacherJoint>
                <attacherJoint jointType="implement"></attacherJoint>
                <attacherJoint jointType="trailer"></attacherJoint>
            </attacherJoints>
            <inputAttacherJoints>
                <inputAttacherJoint jointType="wheelLoader"/>
                <inputAttacherJoint jointType="frontloader"/>
                <inputAttacherJoint jointType="wheelLoader"/>
            </inputAttacherJoints>
        </vehicle>"#);
    let vehicle = StoreItem::from_string(xml.as_ref()).unwrap().vehicle.unwrap();

    assert_eq!(vehicle.sorting.joint_accepts, strings(&["implement", "trailer"]));
    assert_eq!(vehicle.sorting.joint_requires, strings(&["frontloader", "wheelLoader"]));
}

#[test]
fn vehicle_flags_and_weight() {
    let xml = xml_test(r#"
        <vehicle>
            <base><components><component mass="1500"/><component mass="250"/></components></base>
            <motorized><consumerConfigurations><consumerConfiguration>
                <consumer fillType="diesel"/><consumer fillType="def"/>
            </consumerConfiguration></consumerConfigurations></motorized>
            <enterable><cameras></cameras></enterable>
            <lights><realLights><low></low></realLights><beaconLights><beaconLight/></beaconLights></lights>
            <wheels>
                <wheelConfigurations>
                    <wheelConfiguration name="a"><wheels></wheels></wheelConfiguration>
                    <wheelConfiguration name="b"><wheels></wheels></wheelConfiguration>
                </wheelConfigurations>
            </wheels>
        </vehicle>"#);
    let vehicle = StoreItem::from_string(xml.as_ref()).unwrap().vehicle.unwrap();

    assert_eq!(vehicle.sorting.weight, 1750);
    assert_eq!(vehicle.motor.fuel_type, Some(String::from("diesel")));
    assert_eq!(vehicle.flags.motorized, Capability::Yes);
    assert_eq!(vehicle.flags.enterable, Capability::Yes);
    assert_eq!(vehicle.flags.lights, Capability::Yes);
    assert_eq!(vehicle.flags.beacons, Capability::Yes);
    assert_eq!(vehicle.flags.wheels, Capability::Yes);
    assert_eq!(vehicle.flags.color, Capability::No);
}

#[test]
fn vehicle_wrong_root_and_undeclared() {
    let actual = StoreItem::from_string("<vehicle></vehicle>");
    assert!(matches!(actual, Err(AbstractFileError::XmlUndeclared)));

    let actual = fs_mod_parser::store_item::vehicle::Vehicle::from_string(&xml_test("<placeable></placeable>"));
    assert!(matches!(actual, Err(AbstractFileError::XmlWrongFileType)));
}

#[test]
fn production_mixes_sorted_by_name() {
    let xml = xml_test(r#"<placeable>
            <productionPoint>
                <production id="feed" name="feed" cyclesPerHour="2">
                <inputs>
                    <input fillType="WHEAT" amount="1" mix="zeta" />
                    <input fillType="GRASS" amount="2" />
                    <input fillType="BARLEY" amount="3" mix="alpha" />
                    <input fillType="OAT" amount="4" mix="zeta" />
                    <input fillType="SALT" amount="5" mix="boost" boostfactor="0.25" />
                </inputs>
                <outputs><output fillType="FORAGE" amount="6" /></outputs>
            </production>
            </productionPoint>
        </placeable>"#);
    let place = StoreItem::from_string(xml.as_ref()).unwrap().placeable.unwrap();
    let p = &place.productions[0];

    let ing = |fill: &str, quantity: u32| Ingredient { fill_type: String::from(fill), quantity, factor: None };
    assert_eq!(p.recipe, vec![vec![ing("grass", 2)], vec![ing("barley", 3)], vec![ing("wheat", 1), ing("oat", 4)]]);
    assert_eq!(p.boosts, vec![Ingredient { fill_type: String::from("salt"), quantity: 5, factor: Some(String::from("0.25")) }]);
    assert_eq!(p.output, vec![ing("forage", 6)]);
    assert_eq!(p.name, "feed");
}

#[test]
fn vehicle_combos_and_parent() {
    let xml = xml_test(r#"
        <vehicle>
            <parentFile xmlFilename="$data/vehicles/base.xml"><attributes/></parentFile>
            <storeData>
                <specs>
                    <combination xmlFilename="$data/vehicles/tool.xml"/>
                    <combination xmlFilename="mods/tool.xml"/>
                    <combination filterCategory="trailers"/>
                </specs>
            </storeData>
        </vehicle>"#);
    let vehicle = StoreItem::from_string(xml.as_ref()).unwrap().vehicle.unwrap();

    assert_eq!(vehicle.parent_item, Some(String::from("$data/vehicles/base.xml")));
    assert_eq!(
        vehicle.sorting.combos,
        vec![
            Combo::Base(String::from("vehicles/tool.xml")),
            Combo::Local(String::from("mods/tool.xml")),
            Combo::Category(String::from("trailers")),
        ]
    );
}
