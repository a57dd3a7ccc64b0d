use dex_pool::wide::Wide;

#[test]
fn products_of_two_128_bit_values() {
    assert_eq!(Wide::full_mul(340282366920938463463374607431768211455, 340282366920938463463374607431768211455), Wide { hi: 340282366920938463463374607431768211454, lo: 1 });
    assert_eq!(Wide::full_mul(0, 340282366920938463463374607431768211455), Wide { hi: 0, lo: 0 });
    assert_eq!(Wide::full_mul(170141183460469231731687303715884105728, 2), Wide { hi: 1, lo: 0 });
    assert_eq!(Wide::full_mul(134351473349708985578604307872871789624, 279465158934149700935886463558486303824), Wide { hi: 110339410744245830735791995057468488394, lo: 209751400881061728190397052390600880512 });
    assert_eq!(Wide::full_mul(742026323667635606410750824491, 628175017056781476856136821), Wide { hi: 1369810615649082933, lo: 147711731203867531547194246310829002663 });
}

#[test]
fn quotients_and_remainders() {
    assert_eq!(Wide::div_rem(Wide { hi: 340282366920938463463374607431768211455, lo: 340282366920938463463374607431768211455 }, &Wide { hi: 0, lo: 1 }), (Wide { hi: 340282366920938463463374607431768211455, lo: 340282366920938463463374607431768211455 }, Wide { hi: 0, lo: 0 }));
    assert_eq!(Wide::div_rem(Wide { hi: 340282366920938463463374607431768211455, lo: 340282366920938463463374607431768211455 }, &Wide { hi: 340282366920938463463374607431768211455, lo: 340282366920938463463374607431768211455 }), (Wide { hi: 0, lo: 1 }, Wide { hi: 0, lo: 0 }));
    assert_eq!(Wide::div_rem(Wide { hi: 340282366920938463463374607431768211455, lo: 340282366920938463463374607431768211455 }, &Wide { hi: 1, lo: 0 }), (Wide { hi: 0, lo: 340282366920938463463374607431768211455 }, Wide { hi: 0, lo: 340282366920938463463374607431768211455 }));
    assert_eq!(Wide::div_rem(Wide { hi: 30868039493881670288703672103824348315, lo: 147561980648234510403757163971261920716 }, &Wide { hi: 2, lo: 281363197836518236685790949408030944974 }), (Wide { hi: 0, lo: 10919580558243787508966751012024291769 }, Wide { hi: 0, lo: 71764524298500422954040210122954487022 }));
    assert_eq!(Wide::div_rem(Wide { hi: 4474866460475514648245, lo: 214590879575310323753507931465589029923 }, &Wide { hi: 0, lo: 10645670381544157425 }), (Wide { hi: 420, lo: 117785590400599569235367508073791591592 }, Wide { hi: 0, lo: 2799512242820418043 }));
    assert_eq!(Wide::div_rem(Wide { hi: 0, lo: 5 }, &Wide { hi: 0, lo: 7 }), (Wide { hi: 0, lo: 0 }, Wide { hi: 0, lo: 5 }));
    assert_eq!(Wide::div_rem(Wide { hi: 292121679750030477574607478648697573776, lo: 332202398443967355947592511734566750965 }, &Wide { hi: 52485462914507341308322709986788140012, lo: 49087460184564834013283697265414225581 }), (Wide { hi: 0, lo: 5 }, Wide { hi: 29694365177493771032993928714756873716, lo: 86765097521143185881174025407495623060 }));
}

#[test]
fn products_divided() {
    assert_eq!(Wide::mul_div_rem(Wide { hi: 45255474151236315641913924578, lo: 61498000989836585213151688596277495128 }, 33153907076872368978490496003049772359, &Wide { hi: 2639392127423380121610544978661082548, lo: 192044578694111089155019772309532113705 }), Some((Wide { hi: 0, lo: 568462627868258574428612489095 }, Wide { hi: 2263208406384939595407692099629444867, lo: 315189278739284873759979369800441887177 })));
    assert_eq!(Wide::mul_div_rem(Wide { hi: 46392990261218582789207356143, lo: 264477248328426067765794297331909046612 }, 102005423646332802638916349561980495751, &Wide { hi: 3054160263450922172481256961740040736, lo: 237855479995762437805717599451421926007 }), Some((Wide { hi: 0, lo: 1549472266549851988096165669249 }, Wide { hi: 1125426366303531302844756465918563074, lo: 251758744879678594496254861981419364949 })));
    assert_eq!(Wide::mul_div_rem(Wide { hi: 35560308504274254737431201229, lo: 297793858097998675623146942139352293461 }, 24908965327361168816407268577347258888, &Wide { hi: 4962115527708078245836250422466313471, lo: 56133694778202333631001454870085078800 }), Some((Wide { hi: 0, lo: 178506624164060350338305748085 }, Wide { hi: 2492766642555109377940137313350905900, lo: 152272043250942725173676963436109394520 })));
    assert_eq!(Wide::mul_div_rem(Wide { hi: 60575545067385009664141832656, lo: 327358130620125536571948607500945502082 }, 297909661806572647366647026739289394554, &Wide { hi: 3083251768397298494961130898628889211, lo: 236596753272323682654266518445511121610 }), Some((Wide { hi: 0, lo: 5852924606982049737927741097373 }, Wide { hi: 1140471498702927182728892075212170370, lo: 277294099941047646590246245520825703954 })));
    assert_eq!(Wide::mul_div_rem(Wide { hi: 340282366920938463463374607431768211455, lo: 340282366920938463463374607431768211455 }, 340282366920938463463374607431768211455, &Wide { hi: 1, lo: 0 }), Some((Wide { hi: 340282366920938463463374607431768211454, lo: 340282366920938463463374607431768211455 }, Wide { hi: 0, lo: 1 })));
    assert_eq!(Wide::mul_div_rem(Wide { hi: 4722366482869645213696, lo: 0 }, 1267650600228229401496703205376, &Wide { hi: 0, lo: 1152921504606846976 }), Some((Wide { hi: 5192296858534827628530496329220096, lo: 0 }, Wide { hi: 0, lo: 0 })));
    assert_eq!(Wide::mul_div_rem(Wide { hi: 0, lo: 0 }, 5, &Wide { hi: 0, lo: 3 }), Some((Wide { hi: 0, lo: 0 }, Wide { hi: 0, lo: 0 })));
    assert_eq!(Wide::mul_div_rem(Wide { hi: 0, lo: 7 }, 0, &Wide { hi: 0, lo: 3 }), Some((Wide { hi: 0, lo: 0 }, Wide { hi: 0, lo: 0 })));
}

#[test]
fn sums_and_differences() {
    let x = Wide { hi: 80663651659912827526389897339195484215, lo: 285826226635133748728689657637689695453 };
    let y = Wide { hi: 220206536960000846541860085275455996431, lo: 20644735445470920469246289257532840261 };
    assert_eq!(x.add_carry(&y), (Wide { hi: 300870188619913674068249982614651480646, lo: 306470962080604669197935946895222535714 }, false));
    assert_eq!(x.checked_add(&y), Some(Wide { hi: 300870188619913674068249982614651480646, lo: 306470962080604669197935946895222535714 }));
    assert_eq!(y.checked_add(&y), None);
    assert_eq!(x.wrapping_sub(&y), Wide { hi: 200739481620850444447904419495507699240, lo: 265181491189662828259443368380156855192 });
    assert_eq!(y.wrapping_sub(&x), Wide { hi: 139542885300088019015470187936260512215, lo: 75100875731275635203931239051611356264 });
    assert_eq!(x.checked_sub(&y), None);
    assert_eq!(y.checked_sub(&x), Some(Wide { hi: 139542885300088019015470187936260512215, lo: 75100875731275635203931239051611356264 }));
    assert_eq!(x.lt(&y), true);
    assert_eq!(y.lt(&x), false);
    assert!(!x.lt(&x));
    assert_eq!(x.half(), Wide { hi: 40331825829956413763194948669597742107, lo: 313054296778036106096032132534728953454 });
    assert_eq!(y.half(), Wide { hi: 110103268480000423270930042637727998215, lo: 180463551183204691966310448344650525858 });
    assert_eq!(x.is_odd(), true);
    assert_eq!(Wide::max_value(), Wide { hi: u128::MAX, lo: u128::MAX });
    assert_eq!(Wide::max_value().add_carry(&Wide::from_u128(1)), (Wide::zero(), true));
    assert!(Wide::zero().is_zero());
    assert!(!Wide::from_u128(1).is_zero());
    assert_eq!(Wide::from_u128(7).to_u128(), Some(7));
    assert_eq!(Wide { hi: 1, lo: 0 }.to_u128(), None);
    assert_eq!(x.checked_mul_u128(2), Some(Wide { hi: 161327303319825655052779794678390968431, lo: 231370086349329033994004707843611179450 }));
    assert_eq!(y.checked_mul_u128(u128::MAX), None);
    assert_eq!(Wide::from_u128(u128::MAX).checked_mul_u128(u128::MAX), Some(Wide { hi: 340282366920938463463374607431768211454, lo: 1 }));
}
