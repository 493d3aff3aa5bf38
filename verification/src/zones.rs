//! Windows time-zone names (as Outlook writes them in `TZID`) and their
//! IANA equivalents, from CLDR's windowsZones table.

use vstd::prelude::*;
use crate::text::{chars_eq, chars_of};

verus! {

broadcast use vstd::string::group_string_axioms;

/// The IANA zone for a Windows zone name.
pub open spec fn iana_zone(name: Seq<char>) -> Option<Seq<char>> {
    if name == "Dateline Standard Time"@ {
        Some("Etc/GMT+12"@)
    } else if name == "UTC-11"@ {
        Some("Etc/GMT+11"@)
    } else if name == "Aleutian Standard Time"@ {
        Some("America/Adak"@)
    } else if name == "Hawaiian Standard Time"@ {
        Some("Pacific/Honolulu"@)
    } else if name == "Marquesas Standard Time"@ {
        Some("Pacific/Marquesas"@)
    } else if name == "Alaskan Standard Time"@ {
        Some("America/Anchorage"@)
    } else if name == "UTC-09"@ {
        Some("Etc/GMT+9"@)
    } else if name == "Pacific Standard Time (Mexico)"@ {
        Some("America/Tijuana"@)
    } else if name == "UTC-08"@ {
        Some("Etc/GMT+8"@)
    } else if name == "Pacific Standard Time"@ {
        Some("America/Los_Angeles"@)
    } else if name == "US Mountain Standard Time"@ {
        Some("America/Phoenix"@)
    } else if name == "Mountain Standard Time (Mexico)"@ {
        Some("America/Chihuahua"@)
    } else if name == "Mountain Standard Time"@ {
        Some("America/Denver"@)
    } else if name == "Yukon Standard Time"@ {
        Some("America/Whitehorse"@)
    } else if name == "Central America Standard Time"@ {
        Some("America/Guatemala"@)
    } else if name == "Central Standard Time"@ {
        Some("America/Chicago"@)
    } else if name == "Easter Island Standard Time"@ {
        Some("Pacific/Easter"@)
    } else if name == "Central Standard Time (Mexico)"@ {
        Some("America/Mexico_City"@)
    } else if name == "Canada Central Standard Time"@ {
        Some("America/Regina"@)
    } else if name == "SA Pacific Standard Time"@ {
        Some("America/Bogota"@)
    } else {
        iana_zone_from_20(name)
    }
}

/// The IANA zone for a Windows zone name, among the names from row 20 of
/// the table on.
pub open spec fn iana_zone_from_20(name: Seq<char>) -> Option<Seq<char>> {
    if name == "Eastern Standard Time (Mexico)"@ {
        Some("America/Cancun"@)
    } else if name == "Eastern Standard Time"@ {
        Some("America/New_York"@)
    } else if name == "Haiti Standard Time"@ {
        Some("America/Port-au-Prince"@)
    } else if name == "Cuba Standard Time"@ {
        Some("America/Havana"@)
    } else if name == "US Eastern Standard Time"@ {
        Some("America/Indiana/Indianapolis"@)
    } else if name == "Turks And Caicos Standard Time"@ {
        Some("America/Grand_Turk"@)
    } else if name == "Paraguay Standard Time"@ {
        Some("America/Asuncion"@)
    } else if name == "Atlantic Standard Time"@ {
        Some("America/Halifax"@)
    } else if name == "Venezuela Standard Time"@ {
        Some("America/Caracas"@)
    } else if name == "Central Brazilian Standard Time"@ {
        Some("America/Cuiaba"@)
    } else if name == "SA Western Standard Time"@ {
        Some("America/La_Paz"@)
    } else if name == "Pacific SA Standard Time"@ {
        Some("America/Santiago"@)
    } else if name == "Newfoundland Standard Time"@ {
        Some("America/St_Johns"@)
    } else if name == "Tocantins Standard Time"@ {
        Some("America/Araguaina"@)
    } else if name == "E. South America Standard Time"@ {
        Some("America/Sao_Paulo"@)
    } else if name == "SA Eastern Standard Time"@ {
        Some("America/Cayenne"@)
    } else if name == "Argentina Standard Time"@ {
        Some("America/Buenos_Aires"@)
    } else if name == "Greenland Standard Time"@ {
        Some("America/Godthab"@)
    } else if name == "Montevideo Standard Time"@ {
        Some("America/Montevideo"@)
    } else if name == "Magallanes Standard Time"@ {
        Some("America/Punta_Arenas"@)
    } else {
        iana_zone_from_40(name)
    }
}

/// The IANA zone for a Windows zone name, among the names from row 40 of
/// the table on.
pub open spec fn iana_zone_from_40(name: Seq<char>) -> Option<Seq<char>> {
    if name == "Saint Pierre Standard Time"@ {
        Some("America/Miquelon"@)
    } else if name == "Bahia Standard Time"@ {
        Some("America/Bahia"@)
    } else if name == "UTC-02"@ {
        Some("Etc/GMT+2"@)
    } else if name == "Azores Standard Time"@ {
        Some("Atlantic/Azores"@)
    } else if name == "Cape Verde Standard Time"@ {
        Some("Atlantic/Cape_Verde"@)
    } else if name == "UTC"@ {
        Some("Etc/GMT"@)
    } else if name == "GMT Standard Time"@ {
        Some("Europe/London"@)
    } else if name == "Greenwich Standard Time"@ {
        Some("Atlantic/Reykjavik"@)
    } else if name == "Sao Tome Standard Time"@ {
        Some("Africa/Sao_Tome"@)
    } else if name == "Morocco Standard Time"@ {
        Some("Africa/Casablanca"@)
    } else if name == "W. Europe Standard Time"@ {
        Some("Europe/Berlin"@)
    } else if name == "Central Europe Standard Time"@ {
        Some("Europe/Budapest"@)
    } else if name == "Romance Standard Time"@ {
        Some("Europe/Paris"@)
    } else if name == "Central European Standard Time"@ {
        Some("Europe/Warsaw"@)
    } else if name == "W. Central Africa Standard Time"@ {
        Some("Africa/Lagos"@)
    } else if name == "GTB Standard Time"@ {
        Some("Europe/Bucharest"@)
    } else if name == "Middle East Standard Time"@ {
        Some("Asia/Beirut"@)
    } else if name == "Egypt Standard Time"@ {
        Some("Africa/Cairo"@)
    } else if name == "E. Europe Standard Time"@ {
        Some("Asia/Nicosia"@)
    } else if name == "Syria Standard Time"@ {
        Some("Asia/Damascus"@)
    } else {
        iana_zone_from_60(name)
    }
}

/// The IANA zone for a Windows zone name, among the names from row 60 of
/// the table on.
pub open spec fn iana_zone_from_60(name: Seq<char>) -> Option<Seq<char>> {
    if name == "West Bank Standard Time"@ {
        Some("Asia/Hebron"@)
    } else if name == "South Africa Standard Time"@ {
        Some("Africa/Johannesburg"@)
    } else if name == "FLE Standard Time"@ {
        Some("Europe/Kiev"@)
    } else if name == "Israel Standard Time"@ {
        Some("Asia/Jerusalem"@)
    } else if name == "Kaliningrad Standard Time"@ {
        Some("Europe/Kaliningrad"@)
    } else if name == "Sudan Standard Time"@ {
        Some("Africa/Khartoum"@)
    } else if name == "Libya Standard Time"@ {
        Some("Africa/Tripoli"@)
    } else if name == "Namibia Standard Time"@ {
        Some("Africa/Windhoek"@)
    } else if name == "Jordan Standard Time"@ {
        Some("Asia/Amman"@)
    } else if name == "Arabic Standard Time"@ {
        Some("Asia/Baghdad"@)
    } else if name == "Turkey Standard Time"@ {
        Some("Europe/Istanbul"@)
    } else if name == "Arab Standard Time"@ {
        Some("Asia/Riyadh"@)
    } else if name == "Belarus Standard Time"@ {
        Some("Europe/Minsk"@)
    } else if name == "Russian Standard Time"@ {
        Some("Europe/Moscow"@)
    } else if name == "E. Africa Standard Time"@ {
        Some("Africa/Nairobi"@)
    } else if name == "Volga Standard Time"@ {
        Some("Europe/Saratov"@)
    } else if name == "Iran Standard Time"@ {
        Some("Asia/Tehran"@)
    } else if name == "Arabian Standard Time"@ {
        Some("Asia/Dubai"@)
    } else if name == "Astrakhan Standard Time"@ {
        Some("Europe/Astrakhan"@)
    } else if name == "Azerbaijan Standard Time"@ {
        Some("Asia/Baku"@)
    } else {
        iana_zone_from_80(name)
    }
}

/// The IANA zone for a Windows zone name, among the names from row 80 of
/// the table on.
pub open spec fn iana_zone_from_80(name: Seq<char>) -> Option<Seq<char>> {
    if name == "Russia Time Zone 3"@ {
        Some("Europe/Samara"@)
    } else if name == "Mauritius Standard Time"@ {
        Some("Indian/Mauritius"@)
    } else if name == "Saratov Standard Time"@ {
        Some("Europe/Saratov"@)
    } else if name == "Georgian Standard Time"@ {
        Some("Asia/Tbilisi"@)
    } else if name == "Caucasus Standard Time"@ {
        Some("Asia/Yerevan"@)
    } else if name == "Afghanistan Standard Time"@ {
        Some("Asia/Kabul"@)
    } else if name == "West Asia Standard Time"@ {
        Some("Asia/Tashkent"@)
    } else if name == "Ekaterinburg Standard Time"@ {
        Some("Asia/Yekaterinburg"@)
    } else if name == "Pakistan Standard Time"@ {
        Some("Asia/Karachi"@)
    } else if name == "Qyzylorda Standard Time"@ {
        Some("Asia/Qyzylorda"@)
    } else if name == "India Standard Time"@ {
        Some("Asia/Calcutta"@)
    } else if name == "Sri Lanka Standard Time"@ {
        Some("Asia/Colombo"@)
    } else if name == "Nepal Standard Time"@ {
        Some("Asia/Katmandu"@)
    } else if name == "Central Asia Standard Time"@ {
        Some("Asia/Almaty"@)
    } else if name == "Bangladesh Standard Time"@ {
        Some("Asia/Dhaka"@)
    } else if name == "Omsk Standard Time"@ {
        Some("Asia/Omsk"@)
    } else if name == "Myanmar Standard Time"@ {
        Some("Asia/Rangoon"@)
    } else if name == "SE Asia Standard Time"@ {
        Some("Asia/Bangkok"@)
    } else if name == "Altai Standard Time"@ {
        Some("Asia/Barnaul"@)
    } else if name == "W. Mongolia Standard Time"@ {
        Some("Asia/Hovd"@)
    } else {
        iana_zone_from_100(name)
    }
}

/// The IANA zone for a Windows zone name, among the names from row 100 of
/// the table on.
pub open spec fn iana_zone_from_100(name: Seq<char>) -> Option<Seq<char>> {
    if name == "North Asia Standard Time"@ {
        Some("Asia/Krasnoyarsk"@)
    } else if name == "N. Central Asia Standard Time"@ {
        Some("Asia/Novosibirsk"@)
    } else if name == "Tomsk Standard Time"@ {
        Some("Asia/Tomsk"@)
    } else if name == "China Standard Time"@ {
        Some("Asia/Shanghai"@)
    } else if name == "North Asia East Standard Time"@ {
        Some("Asia/Irkutsk"@)
    } else if name == "Singapore Standard Time"@ {
        Some("Asia/Singapore"@)
    } else if name == "W. Australia Standard Time"@ {
        Some("Australia/Perth"@)
    } else if name == "Taipei Standard Time"@ {
        Some("Asia/Taipei"@)
    } else if name == "Ulaanbaatar Standard Time"@ {
        Some("Asia/Ulaanbaatar"@)
    } else if name == "Aus Central W. Standard Time"@ {
        Some("Australia/Eucla"@)
    } else if name == "Transbaikal Standard Time"@ {
        Some("Asia/Chita"@)
    } else if name == "Tokyo Standard Time"@ {
        Some("Asia/Tokyo"@)
    } else if name == "North Korea Standard Time"@ {
        Some("Asia/Pyongyang"@)
    } else if name == "Korea Standard Time"@ {
        Some("Asia/Seoul"@)
    } else if name == "Yakutsk Standard Time"@ {
        Some("Asia/Yakutsk"@)
    } else if name == "Cen. Australia Standard Time"@ {
        Some("Australia/Adelaide"@)
    } else if name == "AUS Central Standard Time"@ {
        Some("Australia/Darwin"@)
    } else if name == "E. Australia Standard Time"@ {
        Some("Australia/Brisbane"@)
    } else if name == "AUS Eastern Standard Time"@ {
        Some("Australia/Sydney"@)
    } else if name == "West Pacific Standard Time"@ {
        Some("Pacific/Port_Moresby"@)
    } else {
        iana_zone_from_120(name)
    }
}

/// The IANA zone for a Windows zone name, among the names from row 120 of
/// the table on.
pub open spec fn iana_zone_from_120(name: Seq<char>) -> Option<Seq<char>> {
    if name == "Tasmania Standard Time"@ {
        Some("Australia/Hobart"@)
    } else if name == "Vladivostok Standard Time"@ {
        Some("Asia/Vladivostok"@)
    } else if name == "Lord Howe Standard Time"@ {
        Some("Australia/Lord_Howe"@)
    } else if name == "Bougainville Standard Time"@ {
        Some("Pacific/Bougainville"@)
    } else if name == "Russia Time Zone 10"@ {
        Some("Asia/Srednekolymsk"@)
    } else if name == "Magadan Standard Time"@ {
        Some("Asia/Magadan"@)
    } else if name == "Norfolk Standard Time"@ {
        Some("Pacific/Norfolk"@)
    } else if name == "Sakhalin Standard Time"@ {
        Some("Asia/Sakhalin"@)
    } else if name == "Central Pacific Standard Time"@ {
        Some("Pacific/Guadalcanal"@)
    } else if name == "Russia Time Zone 11"@ {
        Some("Asia/Kamchatka"@)
    } else if name == "New Zealand Standard Time"@ {
        Some("Pacific/Auckland"@)
    } else if name == "UTC+12"@ {
        Some("Etc/GMT-12"@)
    } else if name == "Fiji Standard Time"@ {
        Some("Pacific/Fiji"@)
    } else if name == "Chatham Islands Standard Time"@ {
        Some("Pacific/Chatham"@)
    } else if name == "UTC+13"@ {
        Some("Etc/GMT-13"@)
    } else if name == "Tonga Standard Time"@ {
        Some("Pacific/Tongatapu"@)
    } else if name == "Samoa Standard Time"@ {
        Some("Pacific/Apia"@)
    } else if name == "Line Islands Standard Time"@ {
        Some("Pacific/Kiritimati"@)
    } else {
        None
    }
}

/// The number of rows of CLDR's windowsZones table (the territory "001"
/// rows).
pub open spec fn cldr_rows() -> int {
    138
}

/// Row `i` of CLDR's windowsZones table: a Windows zone name and its IANA
/// zone.
pub open spec fn cldr_row(i: int) -> (Seq<char>, Seq<char>) {
    if i < 0 || i >= 138 {
        (seq![], seq![])
    } else {
        if i < 69 {
            if i < 34 {
                if i < 17 {
                    if i < 8 {
                        if i < 4 {
                            if i < 2 {
                                if i < 1 {
                                    ("Dateline Standard Time"@, "Etc/GMT+12"@)
                                } else {
                                    ("UTC-11"@, "Etc/GMT+11"@)
                                }
                            } else {
                                if i < 3 {
                                    ("Aleutian Standard Time"@, "America/Adak"@)
                                } else {
                                    ("Hawaiian Standard Time"@, "Pacific/Honolulu"@)
                                }
                            }
                        } else {
                            if i < 6 {
                                if i < 5 {
                                    ("Marquesas Standard Time"@, "Pacific/Marquesas"@)
                                } else {
                                    ("Alaskan Standard Time"@, "America/Anchorage"@)
                                }
                            } else {
                                if i < 7 {
                                    ("UTC-09"@, "Etc/GMT+9"@)
                                } else {
                                    ("Pacific Standard Time (Mexico)"@, "America/Tijuana"@)
                                }
                            }
                        }
                    } else {
                        if i < 12 {
                            if i < 10 {
                                if i < 9 {
                                    ("UTC-08"@, "Etc/GMT+8"@)
                                } else {
                                    ("Pacific Standard Time"@, "America/Los_Angeles"@)
                                }
                            } else {
                                if i < 11 {
                                    ("US Mountain Standard Time"@, "America/Phoenix"@)
                                } else {
                                    ("Mountain Standard Time (Mexico)"@, "America/Chihuahua"@)
                                }
                            }
                        } else {
                            if i < 14 {
                                if i < 13 {
                                    ("Mountain Standard Time"@, "America/Denver"@)
                                } else {
                                    ("Yukon Standard Time"@, "America/Whitehorse"@)
                                }
                            } else {
                                if i < 15 {
                                    ("Central America Standard Time"@, "America/Guatemala"@)
                                } else {
                                    if i < 16 {
                                        ("Central Standard Time"@, "America/Chicago"@)
                                    } else {
                                        ("Easter Island Standard Time"@, "Pacific/Easter"@)
                                    }
                                }
                            }
                        }
                    }
                } else {
                    if i < 25 {
                        if i < 21 {
                            if i < 19 {
                                if i < 18 {
                                    ("Central Standard Time (Mexico)"@, "America/Mexico_City"@)
                                } else {
                                    ("Canada Central Standard Time"@, "America/Regina"@)
                                }
                            } else {
                                if i < 20 {
                                    ("SA Pacific Standard Time"@, "America/Bogota"@)
                                } else {
                                    ("Eastern Standard Time (Mexico)"@, "America/Cancun"@)
                                }
                            }
                        } else {
                            if i < 23 {
                                if i < 22 {
                                    ("Eastern Standard Time"@, "America/New_York"@)
                                } else {
                                    ("Haiti Standard Time"@, "America/Port-au-Prince"@)
                                }
                            } else {
                                if i < 24 {
                                    ("Cuba Standard Time"@, "America/Havana"@)
                                } else {
                                    ("US Eastern Standard Time"@, "America/Indiana/Indianapolis"@)
                                }
                            }
                        }
                    } else {
                        if i < 29 {
                            if i < 27 {
                                if i < 26 {
                                    ("Turks And Caicos Standard Time"@, "America/Grand_Turk"@)
                                } else {
                                    ("Paraguay Standard Time"@, "America/Asuncion"@)
                                }
                            } else {
                                if i < 28 {
                                    ("Atlantic Standard Time"@, "America/Halifax"@)
                                } else {
                                    ("Venezuela Standard Time"@, "America/Caracas"@)
                                }
                            }
                        } else {
                            if i < 31 {
                                if i < 30 {
                                    ("Central Brazilian Standard Time"@, "America/Cuiaba"@)
                                } else {
                                    ("SA Western Standard Time"@, "America/La_Paz"@)
                                }
                            } else {
                                if i < 32 {
                                    ("Pacific SA Standard Time"@, "America/Santiago"@)
                                } else {
                                    if i < 33 {
                                        ("Newfoundland Standard Time"@, "America/St_Johns"@)
                                    } else {
                                        ("Tocantins Standard Time"@, "America/Araguaina"@)
                                    }
                                }
                            }
                        }
                    }
                }
            } else {
                if i < 51 {
                    if i < 42 {
                        if i < 38 {
                            if i < 36 {
                                if i < 35 {
                                    ("E. South America Standard Time"@, "America/Sao_Paulo"@)
                                } else {
                                    ("SA Eastern Standard Time"@, "America/Cayenne"@)
                                }
                            } else {
                                if i < 37 {
                                    ("Argentina Standard Time"@, "America/Buenos_Aires"@)
                                } else {
                                    ("Greenland Standard Time"@, "America/Godthab"@)
                                }
                            }
                        } else {
                            if i < 40 {
                                if i < 39 {
                                    ("Montevideo Standard Time"@, "America/Montevideo"@)
                                } else {
                                    ("Magallanes Standard Time"@, "America/Punta_Arenas"@)
                                }
                            } else {
                                if i < 41 {
                                    ("Saint Pierre Standard Time"@, "America/Miquelon"@)
                                } else {
                                    ("Bahia Standard Time"@, "America/Bahia"@)
                                }
                            }
                        }
                    } else {
                        if i < 46 {
                            if i < 44 {
                                if i < 43 {
                                    ("UTC-02"@, "Etc/GMT+2"@)
                                } else {
                                    ("Azores Standard Time"@, "Atlantic/Azores"@)
                                }
                            } else {
                                if i < 45 {
                                    ("Cape Verde Standard Time"@, "Atlantic/Cape_Verde"@)
                                } else {
                                    ("UTC"@, "Etc/GMT"@)
                                }
                            }
                        } else {
                            if i < 48 {
                                if i < 47 {
                                    ("GMT Standard Time"@, "Europe/London"@)
                                } else {
                                    ("Greenwich Standard Time"@, "Atlantic/Reykjavik"@)
                                }
                            } else {
                                if i < 49 {
                                    ("Sao Tome Standard Time"@, "Africa/Sao_Tome"@)
                                } else {
                                    if i < 50 {
                                        ("Morocco Standard Time"@, "Africa/Casablanca"@)
                                    } else {
                                        ("W. Europe Standard Time"@, "Europe/Berlin"@)
                                    }
                                }
                            }
                        }
                    }
                } else {
                    if i < 60 {
                        if i < 55 {
                            if i < 53 {
                                if i < 52 {
                                    ("Central Europe Standard Time"@, "Europe/Budapest"@)
                                } else {
                                    ("Romance Standard Time"@, "Europe/Paris"@)
                                }
                            } else {
                                if i < 54 {
                                    ("Central European Standard Time"@, "Europe/Warsaw"@)
                                } else {
                                    ("W. Central Africa Standard Time"@, "Africa/Lagos"@)
                                }
                            }
                        } else {
                            if i < 57 {
                                if i < 56 {
                                    ("GTB Standard Time"@, "Europe/Bucharest"@)
                                } else {
                                    ("Middle East Standard Time"@, "Asia/Beirut"@)
                                }
                            } else {
                                if i < 58 {
                                    ("Egypt Standard Time"@, "Africa/Cairo"@)
                                } else {
                                    if i < 59 {
                                        ("E. Europe Standard Time"@, "Asia/Nicosia"@)
                                    } else {
                                        ("Syria Standard Time"@, "Asia/Damascus"@)
                                    }
                                }
                            }
                        }
                    } else {
                        if i < 64 {
                            if i < 62 {
                                if i < 61 {
                                    ("West Bank Standard Time"@, "Asia/Hebron"@)
                                } else {
                                    ("South Africa Standard Time"@, "Africa/Johannesburg"@)
                                }
                            } else {
                                if i < 63 {
                                    ("FLE Standard Time"@, "Europe/Kiev"@)
                                } else {
                                    ("Israel Standard Time"@, "Asia/Jerusalem"@)
                                }
                            }
                        } else {
                            if i < 66 {
                                if i < 65 {
                                    ("Kaliningrad Standard Time"@, "Europe/Kaliningrad"@)
                                } else {
                                    ("Sudan Standard Time"@, "Africa/Khartoum"@)
                                }
                            } else {
                                if i < 67 {
                                    ("Libya Standard Time"@, "Africa/Tripoli"@)
                                } else {
                                    if i < 68 {
                                        ("Namibia Standard Time"@, "Africa/Windhoek"@)
                                    } else {
                                        ("Jordan Standard Time"@, "Asia/Amman"@)
                                    }
                                }
                            }
                        }
                    }
                }
            }
        } else {
            if i < 103 {
                if i < 86 {
                    if i < 77 {
                        if i < 73 {
                            if i < 71 {
                                if i < 70 {
                                    ("Arabic Standard Time"@, "Asia/Baghdad"@)
                                } else {
                                    ("Turkey Standard Time"@, "Europe/Istanbul"@)
                                }
                            } else {
                                if i < 72 {
                                    ("Arab Standard Time"@, "Asia/Riyadh"@)
                                } else {
                                    ("Belarus Standard Time"@, "Europe/Minsk"@)
                                }
                            }
                        } else {
                            if i < 75 {
                                if i < 74 {
                                    ("Russian Standard Time"@, "Europe/Moscow"@)
                                } else {
                                    ("E. Africa Standard Time"@, "Africa/Nairobi"@)
                                }
                            } else {
                                if i < 76 {
                                    ("Volga Standard Time"@, "Europe/Saratov"@)
                                } else {
                                    ("Iran Standard Time"@, "Asia/Tehran"@)
                                }
                            }
                        }
                    } else {
                        if i < 81 {
                            if i < 79 {
                                if i < 78 {
                                    ("Arabian Standard Time"@, "Asia/Dubai"@)
                                } else {
                                    ("Astrakhan Standard Time"@, "Europe/Astrakhan"@)
                                }
                            } else {
                                if i < 80 {
                                    ("Azerbaijan Standard Time"@, "Asia/Baku"@)
                                } else {
                                    ("Russia Time Zone 3"@, "Europe/Samara"@)
                                }
                            }
                        } else {
                            if i < 83 {
                                if i < 82 {
                                    ("Mauritius Standard Time"@, "Indian/Mauritius"@)
                                } else {
                                    ("Saratov Standard Time"@, "Europe/Saratov"@)
                                }
                            } else {
                                if i < 84 {
                                    ("Georgian Standard Time"@, "Asia/Tbilisi"@)
                                } else {
                                    if i < 85 {
                                        ("Caucasus Standard Time"@, "Asia/Yerevan"@)
                                    } else {
                                        ("Afghanistan Standard Time"@, "Asia/Kabul"@)
                                    }
                                }
                            }
                        }
                    }
                } else {
                    if i < 94 {
                        if i < 90 {
                            if i < 88 {
                                if i < 87 {
                                    ("West Asia Standard Time"@, "Asia/Tashkent"@)
                                } else {
                                    ("Ekaterinburg Standard Time"@, "Asia/Yekaterinburg"@)
                                }
                            } else {
                                if i < 89 {
                                    ("Pakistan Standard Time"@, "Asia/Karachi"@)
                                } else {
                                    ("Qyzylorda Standard Time"@, "Asia/Qyzylorda"@)
                                }
                            }
                        } else {
                            if i < 92 {
                                if i < 91 {
                                    ("India Standard Time"@, "Asia/Calcutta"@)
                                } else {
                                    ("Sri Lanka Standard Time"@, "Asia/Colombo"@)
                                }
                            } else {
                                if i < 93 {
                                    ("Nepal Standard Time"@, "Asia/Katmandu"@)
                                } else {
                                    ("Central Asia Standard Time"@, "Asia/Almaty"@)
                                }
                            }
                        }
                    } else {
                        if i < 98 {
                            if i < 96 {
                                if i < 95 {
                                    ("Bangladesh Standard Time"@, "Asia/Dhaka"@)
                                } else {
                                    ("Omsk Standard Time"@, "Asia/Omsk"@)
                                }
                            } else {
                                if i < 97 {
                                    ("Myanmar Standard Time"@, "Asia/Rangoon"@)
                                } else {
                                    ("SE Asia Standard Time"@, "Asia/Bangkok"@)
                                }
                            }
                        } else {
                            if i < 100 {
                                if i < 99 {
                                    ("Altai Standard Time"@, "Asia/Barnaul"@)
                                } else {
                                    ("W. Mongolia Standard Time"@, "Asia/Hovd"@)
                                }
                            } else {
                                if i < 101 {
                                    ("North Asia Standard Time"@, "Asia/Krasnoyarsk"@)
                                } else {
                                    if i < 102 {
                                        ("N. Central Asia Standard Time"@, "Asia/Novosibirsk"@)
                                    } else {
                                        ("Tomsk Standard Time"@, "Asia/Tomsk"@)
                                    }
                                }
                            }
                        }
                    }
                }
            } else {
                if i < 120 {
                    if i < 111 {
                        if i < 107 {
                            if i < 105 {
                                if i < 104 {
                                    ("China Standard Time"@, "Asia/Shanghai"@)
                                } else {
                                    ("North Asia East Standard Time"@, "Asia/Irkutsk"@)
                                }
                            } else {
                                if i < 106 {
                                    ("Singapore Standard Time"@, "Asia/Singapore"@)
                                } else {
                                    ("W. Australia Standard Time"@, "Australia/Perth"@)
                                }
                            }
                        } else {
                            if i < 109 {
                                if i < 108 {
                                    ("Taipei Standard Time"@, "Asia/Taipei"@)
                                } else {
                                    ("Ulaanbaatar Standard Time"@, "Asia/Ulaanbaatar"@)
                                }
                            } else {
                                if i < 110 {
                                    ("Aus Central W. Standard Time"@, "Australia/Eucla"@)
                                } else {
                                    ("Transbaikal Standard Time"@, "Asia/Chita"@)
                                }
                            }
                        }
                    } else {
                        if i < 115 {
                            if i < 113 {
                                if i < 112 {
                                    ("Tokyo Standard Time"@, "Asia/Tokyo"@)
                                } else {
                                    ("North Korea Standard Time"@, "Asia/Pyongyang"@)
                                }
                            } else {
                                if i < 114 {
                                    ("Korea Standard Time"@, "Asia/Seoul"@)
                                } else {
                                    ("Yakutsk Standard Time"@, "Asia/Yakutsk"@)
                                }
                            }
                        } else {
                            if i < 117 {
                                if i < 116 {
                                    ("Cen. Australia Standard Time"@, "Australia/Adelaide"@)
                                } else {
                                    ("AUS Central Standard Time"@, "Australia/Darwin"@)
                                }
                            } else {
                                if i < 118 {
                                    ("E. Australia Standard Time"@, "Australia/Brisbane"@)
                                } else {
                                    if i < 119 {
                                        ("AUS Eastern Standard Time"@, "Australia/Sydney"@)
                                    } else {
                                        ("West Pacific Standard Time"@, "Pacific/Port_Moresby"@)
                                    }
                                }
                            }
                        }
                    }
                } else {
                    if i < 129 {
                        if i < 124 {
                            if i < 122 {
                                if i < 121 {
                                    ("Tasmania Standard Time"@, "Australia/Hobart"@)
                                } else {
                                    ("Vladivostok Standard Time"@, "Asia/Vladivostok"@)
                                }
                            } else {
                                if i < 123 {
                                    ("Lord Howe Standard Time"@, "Australia/Lord_Howe"@)
                                } else {
                                    ("Bougainville Standard Time"@, "Pacific/Bougainville"@)
                                }
                            }
                        } else {
                            if i < 126 {
                                if i < 125 {
                                    ("Russia Time Zone 10"@, "Asia/Srednekolymsk"@)
                                } else {
                                    ("Magadan Standard Time"@, "Asia/Magadan"@)
                                }
                            } else {
                                if i < 127 {
                                    ("Norfolk Standard Time"@, "Pacific/Norfolk"@)
                                } else {
                                    if i < 128 {
                                        ("Sakhalin Standard Time"@, "Asia/Sakhalin"@)
                                    } else {
                                        ("Central Pacific Standard Time"@, "Pacific/Guadalcanal"@)
                                    }
                                }
                            }
                        }
                    } else {
                        if i < 133 {
                            if i < 131 {
                                if i < 130 {
                                    ("Russia Time Zone 11"@, "Asia/Kamchatka"@)
                                } else {
                                    ("New Zealand Standard Time"@, "Pacific/Auckland"@)
                                }
                            } else {
                                if i < 132 {
                                    ("UTC+12"@, "Etc/GMT-12"@)
                                } else {
                                    ("Fiji Standard Time"@, "Pacific/Fiji"@)
                                }
                            }
                        } else {
                            if i < 135 {
                                if i < 134 {
                                    ("Chatham Islands Standard Time"@, "Pacific/Chatham"@)
                                } else {
                                    ("UTC+13"@, "Etc/GMT-13"@)
                                }
                            } else {
                                if i < 136 {
                                    ("Tonga Standard Time"@, "Pacific/Tongatapu"@)
                                } else {
                                    if i < 137 {
                                        ("Samoa Standard Time"@, "Pacific/Apia"@)
                                    } else {
                                        ("Line Islands Standard Time"@, "Pacific/Kiritimati"@)
                                    }
                                }
                            }
                        }
                    }
                }
            }
        }
    }
}

/// The zone that the table gives a name, looking from row `i` on: the
/// first row for that name.
pub open spec fn cldr_zone_from(i: int, name: Seq<char>) -> Option<Seq<char>>
    decreases cldr_rows() - i,
{
    if i < 0 || i >= cldr_rows() {
        None
    } else if cldr_row(i).0 == name {
        Some(cldr_row(i).1)
    } else {
        cldr_zone_from(i + 1, name)
    }
}

proof fn lemma_cldr_from_120(name: Seq<char>)
    ensures
        cldr_zone_from(120, name) == iana_zone_from_120(name),
{
    assert(cldr_zone_from(138, name) is None);
    assert(cldr_zone_from(120, name) == if name == cldr_row(120).0 {
        Some(cldr_row(120).1)
    } else {
        cldr_zone_from(121, name)
    });
    assert(cldr_zone_from(121, name) == if name == cldr_row(121).0 {
        Some(cldr_row(121).1)
    } else {
        cldr_zone_from(122, name)
    });
    assert(cldr_zone_from(122, name) == if name == cldr_row(122).0 {
        Some(cldr_row(122).1)
    } else {
        cldr_zone_from(123, name)
    });
    assert(cldr_zone_from(123, name) == if name == cldr_row(123).0 {
        Some(cldr_row(123).1)
    } else {
        cldr_zone_from(124, name)
    });
    assert(cldr_zone_from(124, name) == if name == cldr_row(124).0 {
        Some(cldr_row(124).1)
    } else {
        cldr_zone_from(125, name)
    });
    assert(cldr_zone_from(125, name) == if name == cldr_row(125).0 {
        Some(cldr_row(125).1)
    } else {
        cldr_zone_from(126, name)
    });
    assert(cldr_zone_from(126, name) == if name == cldr_row(126).0 {
        Some(cldr_row(126).1)
    } else {
        cldr_zone_from(127, name)
    });
    assert(cldr_zone_from(127, name) == if name == cldr_row(127).0 {
        Some(cldr_row(127).1)
    } else {
        cldr_zone_from(128, name)
    });
    assert(cldr_zone_from(128, name) == if name == cldr_row(128).0 {
        Some(cldr_row(128).1)
    } else {
        cldr_zone_from(129, name)
    });
    assert(cldr_zone_from(129, name) == if name == cldr_row(129).0 {
        Some(cldr_row(129).1)
    } else {
        cldr_zone_from(130, name)
    });
    assert(cldr_zone_from(130, name) == if name == cldr_row(130).0 {
        Some(cldr_row(130).1)
    } else {
        cldr_zone_from(131, name)
    });
    assert(cldr_zone_from(131, name) == if name == cldr_row(131).0 {
        Some(cldr_row(131).1)
    } else {
        cldr_zone_from(132, name)
    });
    assert(cldr_zone_from(132, name) == if name == cldr_row(132).0 {
        Some(cldr_row(132).1)
    } else {
        cldr_zone_from(133, name)
    });
    assert(cldr_zone_from(133, name) == if name == cldr_row(133).0 {
        Some(cldr_row(133).1)
    } else {
        cldr_zone_from(134, name)
    });
    assert(cldr_zone_from(134, name) == if name == cldr_row(134).0 {
        Some(cldr_row(134).1)
    } else {
        cldr_zone_from(135, name)
    });
    assert(cldr_zone_from(135, name) == if name == cldr_row(135).0 {
        Some(cldr_row(135).1)
    } else {
        cldr_zone_from(136, name)
    });
    assert(cldr_zone_from(136, name) == if name == cldr_row(136).0 {
        Some(cldr_row(136).1)
    } else {
        cldr_zone_from(137, name)
    });
    assert(cldr_zone_from(137, name) == if name == cldr_row(137).0 {
        Some(cldr_row(137).1)
    } else {
        cldr_zone_from(138, name)
    });
}

proof fn lemma_cldr_from_100(name: Seq<char>)
    ensures
        cldr_zone_from(100, name) == iana_zone_from_100(name),
{
    lemma_cldr_from_120(name);
    assert(cldr_zone_from(100, name) == if name == cldr_row(100).0 {
        Some(cldr_row(100).1)
    } else {
        cldr_zone_from(101, name)
    });
    assert(cldr_zone_from(101, name) == if name == cldr_row(101).0 {
        Some(cldr_row(101).1)
    } else {
        cldr_zone_from(102, name)
    });
    assert(cldr_zone_from(102, name) == if name == cldr_row(102).0 {
        Some(cldr_row(102).1)
    } else {
        cldr_zone_from(103, name)
    });
    assert(cldr_zone_from(103, name) == if name == cldr_row(103).0 {
        Some(cldr_row(103).1)
    } else {
        cldr_zone_from(104, name)
    });
    assert(cldr_zone_from(104, name) == if name == cldr_row(104).0 {
        Some(cldr_row(104).1)
    } else {
        cldr_zone_from(105, name)
    });
    assert(cldr_zone_from(105, name) == if name == cldr_row(105).0 {
        Some(cldr_row(105).1)
    } else {
        cldr_zone_from(106, name)
    });
    assert(cldr_zone_from(106, name) == if name == cldr_row(106).0 {
        Some(cldr_row(106).1)
    } else {
        cldr_zone_from(107, name)
    });
    assert(cldr_zone_from(107, name) == if name == cldr_row(107).0 {
        Some(cldr_row(107).1)
    } else {
        cldr_zone_from(108, name)
    });
    assert(cldr_zone_from(108, name) == if name == cldr_row(108).0 {
        Some(cldr_row(108).1)
    } else {
        cldr_zone_from(109, name)
    });
    assert(cldr_zone_from(109, name) == if name == cldr_row(109).0 {
        Some(cldr_row(109).1)
    } else {
        cldr_zone_from(110, name)
    });
    assert(cldr_zone_from(110, name) == if name == cldr_row(110).0 {
        Some(cldr_row(110).1)
    } else {
        cldr_zone_from(111, name)
    });
    assert(cldr_zone_from(111, name) == if name == cldr_row(111).0 {
        Some(cldr_row(111).1)
    } else {
        cldr_zone_from(112, name)
    });
    assert(cldr_zone_from(112, name) == if name == cldr_row(112).0 {
        Some(cldr_row(112).1)
    } else {
        cldr_zone_from(113, name)
    });
    assert(cldr_zone_from(113, name) == if name == cldr_row(113).0 {
        Some(cldr_row(113).1)
    } else {
        cldr_zone_from(114, name)
    });
    assert(cldr_zone_from(114, name) == if name == cldr_row(114).0 {
        Some(cldr_row(114).1)
    } else {
        cldr_zone_from(115, name)
    });
    assert(cldr_zone_from(115, name) == if name == cldr_row(115).0 {
        Some(cldr_row(115).1)
    } else {
        cldr_zone_from(116, name)
    });
    assert(cldr_zone_from(116, name) == if name == cldr_row(116).0 {
        Some(cldr_row(116).1)
    } else {
        cldr_zone_from(117, name)
    });
    assert(cldr_zone_from(117, name) == if name == cldr_row(117).0 {
        Some(cldr_row(117).1)
    } else {
        cldr_zone_from(118, name)
    });
    assert(cldr_zone_from(118, name) == if name == cldr_row(118).0 {
        Some(cldr_row(118).1)
    } else {
        cldr_zone_from(119, name)
    });
    assert(cldr_zone_from(119, name) == if name == cldr_row(119).0 {
        Some(cldr_row(119).1)
    } else {
        cldr_zone_from(120, name)
    });
}

proof fn lemma_cldr_from_80(name: Seq<char>)
    ensures
        cldr_zone_from(80, name) == iana_zone_from_80(name),
{
    lemma_cldr_from_100(name);
    assert(cldr_zone_from(80, name) == if name == cldr_row(80).0 {
        Some(cldr_row(80).1)
    } else {
        cldr_zone_from(81, name)
    });
    assert(cldr_zone_from(81, name) == if name == cldr_row(81).0 {
        Some(cldr_row(81).1)
    } else {
        cldr_zone_from(82, name)
    });
    assert(cldr_zone_from(82, name) == if name == cldr_row(82).0 {
        Some(cldr_row(82).1)
    } else {
        cldr_zone_from(83, name)
    });
    assert(cldr_zone_from(83, name) == if name == cldr_row(83).0 {
        Some(cldr_row(83).1)
    } else {
        cldr_zone_from(84, name)
    });
    assert(cldr_zone_from(84, name) == if name == cldr_row(84).0 {
        Some(cldr_row(84).1)
    } else {
        cldr_zone_from(85, name)
    });
    assert(cldr_zone_from(85, name) == if name == cldr_row(85).0 {
        Some(cldr_row(85).1)
    } else {
        cldr_zone_from(86, name)
    });
    assert(cldr_zone_from(86, name) == if name == cldr_row(86).0 {
        Some(cldr_row(86).1)
    } else {
        cldr_zone_from(87, name)
    });
    assert(cldr_zone_from(87, name) == if name == cldr_row(87).0 {
        Some(cldr_row(87).1)
    } else {
        cldr_zone_from(88, name)
    });
    assert(cldr_zone_from(88, name) == if name == cldr_row(88).0 {
        Some(cldr_row(88).1)
    } else {
        cldr_zone_from(89, name)
    });
    assert(cldr_zone_from(89, name) == if name == cldr_row(89).0 {
        Some(cldr_row(89).1)
    } else {
        cldr_zone_from(90, name)
    });
    assert(cldr_zone_from(90, name) == if name == cldr_row(90).0 {
        Some(cldr_row(90).1)
    } else {
        cldr_zone_from(91, name)
    });
    assert(cldr_zone_from(91, name) == if name == cldr_row(91).0 {
        Some(cldr_row(91).1)
    } else {
        cldr_zone_from(92, name)
    });
    assert(cldr_zone_from(92, name) == if name == cldr_row(92).0 {
        Some(cldr_row(92).1)
    } else {
        cldr_zone_from(93, name)
    });
    assert(cldr_zone_from(93, name) == if name == cldr_row(93).0 {
        Some(cldr_row(93).1)
    } else {
        cldr_zone_from(94, name)
    });
    assert(cldr_zone_from(94, name) == if name == cldr_row(94).0 {
        Some(cldr_row(94).1)
    } else {
        cldr_zone_from(95, name)
    });
    assert(cldr_zone_from(95, name) == if name == cldr_row(95).0 {
        Some(cldr_row(95).1)
    } else {
        cldr_zone_from(96, name)
    });
    assert(cldr_zone_from(96, name) == if name == cldr_row(96).0 {
        Some(cldr_row(96).1)
    } else {
        cldr_zone_from(97, name)
    });
    assert(cldr_zone_from(97, name) == if name == cldr_row(97).0 {
        Some(cldr_row(97).1)
    } else {
        cldr_zone_from(98, name)
    });
    assert(cldr_zone_from(98, name) == if name == cldr_row(98).0 {
        Some(cldr_row(98).1)
    } else {
        cldr_zone_from(99, name)
    });
    assert(cldr_zone_from(99, name) == if name == cldr_row(99).0 {
        Some(cldr_row(99).1)
    } else {
        cldr_zone_from(100, name)
    });
}

proof fn lemma_cldr_from_60(name: Seq<char>)
    ensures
        cldr_zone_from(60, name) == iana_zone_from_60(name),
{
    lemma_cldr_from_80(name);
    assert(cldr_zone_from(60, name) == if name == cldr_row(60).0 {
        Some(cldr_row(60).1)
    } else {
        cldr_zone_from(61, name)
    });
    assert(cldr_zone_from(61, name) == if name == cldr_row(61).0 {
        Some(cldr_row(61).1)
    } else {
        cldr_zone_from(62, name)
    });
    assert(cldr_zone_from(62, name) == if name == cldr_row(62).0 {
        Some(cldr_row(62).1)
    } else {
        cldr_zone_from(63, name)
    });
    assert(cldr_zone_from(63, name) == if name == cldr_row(63).0 {
        Some(cldr_row(63).1)
    } else {
        cldr_zone_from(64, name)
    });
    assert(cldr_zone_from(64, name) == if name == cldr_row(64).0 {
        Some(cldr_row(64).1)
    } else {
        cldr_zone_from(65, name)
    });
    assert(cldr_zone_from(65, name) == if name == cldr_row(65).0 {
        Some(cldr_row(65).1)
    } else {
        cldr_zone_from(66, name)
    });
    assert(cldr_zone_from(66, name) == if name == cldr_row(66).0 {
        Some(cldr_row(66).1)
    } else {
        cldr_zone_from(67, name)
    });
    assert(cldr_zone_from(67, name) == if name == cldr_row(67).0 {
        Some(cldr_row(67).1)
    } else {
        cldr_zone_from(68, name)
    });
    assert(cldr_zone_from(68, name) == if name == cldr_row(68).0 {
        Some(cldr_row(68).1)
    } else {
        cldr_zone_from(69, name)
    });
    assert(cldr_zone_from(69, name) == if name == cldr_row(69).0 {
        Some(cldr_row(69).1)
    } else {
        cldr_zone_from(70, name)
    });
    assert(cldr_zone_from(70, name) == if name == cldr_row(70).0 {
        Some(cldr_row(70).1)
    } else {
        cldr_zone_from(71, name)
    });
    assert(cldr_zone_from(71, name) == if name == cldr_row(71).0 {
        Some(cldr_row(71).1)
    } else {
        cldr_zone_from(72, name)
    });
    assert(cldr_zone_from(72, name) == if name == cldr_row(72).0 {
        Some(cldr_row(72).1)
    } else {
        cldr_zone_from(73, name)
    });
    assert(cldr_zone_from(73, name) == if name == cldr_row(73).0 {
        Some(cldr_row(73).1)
    } else {
        cldr_zone_from(74, name)
    });
    assert(cldr_zone_from(74, name) == if name == cldr_row(74).0 {
        Some(cldr_row(74).1)
    } else {
        cldr_zone_from(75, name)
    });
    assert(cldr_zone_from(75, name) == if name == cldr_row(75).0 {
        Some(cldr_row(75).1)
    } else {
        cldr_zone_from(76, name)
    });
    assert(cldr_zone_from(76, name) == if name == cldr_row(76).0 {
        Some(cldr_row(76).1)
    } else {
        cldr_zone_from(77, name)
    });
    assert(cldr_zone_from(77, name) == if name == cldr_row(77).0 {
        Some(cldr_row(77).1)
    } else {
        cldr_zone_from(78, name)
    });
    assert(cldr_zone_from(78, name) == if name == cldr_row(78).0 {
        Some(cldr_row(78).1)
    } else {
        cldr_zone_from(79, name)
    });
    assert(cldr_zone_from(79, name) == if name == cldr_row(79).0 {
        Some(cldr_row(79).1)
    } else {
        cldr_zone_from(80, name)
    });
}

proof fn lemma_cldr_from_40(name: Seq<char>)
    ensures
        cldr_zone_from(40, name) == iana_zone_from_40(name),
{
    lemma_cldr_from_60(name);
    assert(cldr_zone_from(40, name) == if name == cldr_row(40).0 {
        Some(cldr_row(40).1)
    } else {
        cldr_zone_from(41, name)
    });
    assert(cldr_zone_from(41, name) == if name == cldr_row(41).0 {
        Some(cldr_row(41).1)
    } else {
        cldr_zone_from(42, name)
    });
    assert(cldr_zone_from(42, name) == if name == cldr_row(42).0 {
        Some(cldr_row(42).1)
    } else {
        cldr_zone_from(43, name)
    });
    assert(cldr_zone_from(43, name) == if name == cldr_row(43).0 {
        Some(cldr_row(43).1)
    } else {
        cldr_zone_from(44, name)
    });
    assert(cldr_zone_from(44, name) == if name == cldr_row(44).0 {
        Some(cldr_row(44).1)
    } else {
        cldr_zone_from(45, name)
    });
    assert(cldr_zone_from(45, name) == if name == cldr_row(45).0 {
        Some(cldr_row(45).1)
    } else {
        cldr_zone_from(46, name)
    });
    assert(cldr_zone_from(46, name) == if name == cldr_row(46).0 {
        Some(cldr_row(46).1)
    } else {
        cldr_zone_from(47, name)
    });
    assert(cldr_zone_from(47, name) == if name == cldr_row(47).0 {
        Some(cldr_row(47).1)
    } else {
        cldr_zone_from(48, name)
    });
    assert(cldr_zone_from(48, name) == if name == cldr_row(48).0 {
        Some(cldr_row(48).1)
    } else {
        cldr_zone_from(49, name)
    });
    assert(cldr_zone_from(49, name) == if name == cldr_row(49).0 {
        Some(cldr_row(49).1)
    } else {
        cldr_zone_from(50, name)
    });
    assert(cldr_zone_from(50, name) == if name == cldr_row(50).0 {
        Some(cldr_row(50).1)
    } else {
        cldr_zone_from(51, name)
    });
    assert(cldr_zone_from(51, name) == if name == cldr_row(51).0 {
        Some(cldr_row(51).1)
    } else {
        cldr_zone_from(52, name)
    });
    assert(cldr_zone_from(52, name) == if name == cldr_row(52).0 {
        Some(cldr_row(52).1)
    } else {
        cldr_zone_from(53, name)
    });
    assert(cldr_zone_from(53, name) == if name == cldr_row(53).0 {
        Some(cldr_row(53).1)
    } else {
        cldr_zone_from(54, name)
    });
    assert(cldr_zone_from(54, name) == if name == cldr_row(54).0 {
        Some(cldr_row(54).1)
    } else {
        cldr_zone_from(55, name)
    });
    assert(cldr_zone_from(55, name) == if name == cldr_row(55).0 {
        Some(cldr_row(55).1)
    } else {
        cldr_zone_from(56, name)
    });
    assert(cldr_zone_from(56, name) == if name == cldr_row(56).0 {
        Some(cldr_row(56).1)
    } else {
        cldr_zone_from(57, name)
    });
    assert(cldr_zone_from(57, name) == if name == cldr_row(57).0 {
        Some(cldr_row(57).1)
    } else {
        cldr_zone_from(58, name)
    });
    assert(cldr_zone_from(58, name) == if name == cldr_row(58).0 {
        Some(cldr_row(58).1)
    } else {
        cldr_zone_from(59, name)
    });
    assert(cldr_zone_from(59, name) == if name == cldr_row(59).0 {
        Some(cldr_row(59).1)
    } else {
        cldr_zone_from(60, name)
    });
}

proof fn lemma_cldr_from_20(name: Seq<char>)
    ensures
        cldr_zone_from(20, name) == iana_zone_from_20(name),
{
    lemma_cldr_from_40(name);
    assert(cldr_zone_from(20, name) == if name == cldr_row(20).0 {
        Some(cldr_row(20).1)
    } else {
        cldr_zone_from(21, name)
    });
    assert(cldr_zone_from(21, name) == if name == cldr_row(21).0 {
        Some(cldr_row(21).1)
    } else {
        cldr_zone_from(22, name)
    });
    assert(cldr_zone_from(22, name) == if name == cldr_row(22).0 {
        Some(cldr_row(22).1)
    } else {
        cldr_zone_from(23, name)
    });
    assert(cldr_zone_from(23, name) == if name == cldr_row(23).0 {
        Some(cldr_row(23).1)
    } else {
        cldr_zone_from(24, name)
    });
    assert(cldr_zone_from(24, name) == if name == cldr_row(24).0 {
        Some(cldr_row(24).1)
    } else {
        cldr_zone_from(25, name)
    });
    assert(cldr_zone_from(25, name) == if name == cldr_row(25).0 {
        Some(cldr_row(25).1)
    } else {
        cldr_zone_from(26, name)
    });
    assert(cldr_zone_from(26, name) == if name == cldr_row(26).0 {
        Some(cldr_row(26).1)
    } else {
        cldr_zone_from(27, name)
    });
    assert(cldr_zone_from(27, name) == if name == cldr_row(27).0 {
        Some(cldr_row(27).1)
    } else {
        cldr_zone_from(28, name)
    });
    assert(cldr_zone_from(28, name) == if name == cldr_row(28).0 {
        Some(cldr_row(28).1)
    } else {
        cldr_zone_from(29, name)
    });
    assert(cldr_zone_from(29, name) == if name == cldr_row(29).0 {
        Some(cldr_row(29).1)
    } else {
        cldr_zone_from(30, name)
    });
    assert(cldr_zone_from(30, name) == if name == cldr_row(30).0 {
        Some(cldr_row(30).1)
    } else {
        cldr_zone_from(31, name)
    });
    assert(cldr_zone_from(31, name) == if name == cldr_row(31).0 {
        Some(cldr_row(31).1)
    } else {
        cldr_zone_from(32, name)
    });
    assert(cldr_zone_from(32, name) == if name == cldr_row(32).0 {
        Some(cldr_row(32).1)
    } else {
        cldr_zone_from(33, name)
    });
    assert(cldr_zone_from(33, name) == if name == cldr_row(33).0 {
        Some(cldr_row(33).1)
    } else {
        cldr_zone_from(34, name)
    });
    assert(cldr_zone_from(34, name) == if name == cldr_row(34).0 {
        Some(cldr_row(34).1)
    } else {
        cldr_zone_from(35, name)
    });
    assert(cldr_zone_from(35, name) == if name == cldr_row(35).0 {
        Some(cldr_row(35).1)
    } else {
        cldr_zone_from(36, name)
    });
    assert(cldr_zone_from(36, name) == if name == cldr_row(36).0 {
        Some(cldr_row(36).1)
    } else {
        cldr_zone_from(37, name)
    });
    assert(cldr_zone_from(37, name) == if name == cldr_row(37).0 {
        Some(cldr_row(37).1)
    } else {
        cldr_zone_from(38, name)
    });
    assert(cldr_zone_from(38, name) == if name == cldr_row(38).0 {
        Some(cldr_row(38).1)
    } else {
        cldr_zone_from(39, name)
    });
    assert(cldr_zone_from(39, name) == if name == cldr_row(39).0 {
        Some(cldr_row(39).1)
    } else {
        cldr_zone_from(40, name)
    });
}

proof fn lemma_cldr_from_0(name: Seq<char>)
    ensures
        cldr_zone_from(0, name) == iana_zone(name),
{
    lemma_cldr_from_20(name);
    assert(cldr_zone_from(0, name) == if name == cldr_row(0).0 {
        Some(cldr_row(0).1)
    } else {
        cldr_zone_from(1, name)
    });
    assert(cldr_zone_from(1, name) == if name == cldr_row(1).0 {
        Some(cldr_row(1).1)
    } else {
        cldr_zone_from(2, name)
    });
    assert(cldr_zone_from(2, name) == if name == cldr_row(2).0 {
        Some(cldr_row(2).1)
    } else {
        cldr_zone_from(3, name)
    });
    assert(cldr_zone_from(3, name) == if name == cldr_row(3).0 {
        Some(cldr_row(3).1)
    } else {
        cldr_zone_from(4, name)
    });
    assert(cldr_zone_from(4, name) == if name == cldr_row(4).0 {
        Some(cldr_row(4).1)
    } else {
        cldr_zone_from(5, name)
    });
    assert(cldr_zone_from(5, name) == if name == cldr_row(5).0 {
        Some(cldr_row(5).1)
    } else {
        cldr_zone_from(6, name)
    });
    assert(cldr_zone_from(6, name) == if name == cldr_row(6).0 {
        Some(cldr_row(6).1)
    } else {
        cldr_zone_from(7, name)
    });
    assert(cldr_zone_from(7, name) == if name == cldr_row(7).0 {
        Some(cldr_row(7).1)
    } else {
        cldr_zone_from(8, name)
    });
    assert(cldr_zone_from(8, name) == if name == cldr_row(8).0 {
        Some(cldr_row(8).1)
    } else {
        cldr_zone_from(9, name)
    });
    assert(cldr_zone_from(9, name) == if name == cldr_row(9).0 {
        Some(cldr_row(9).1)
    } else {
        cldr_zone_from(10, name)
    });
    assert(cldr_zone_from(10, name) == if name == cldr_row(10).0 {
        Some(cldr_row(10).1)
    } else {
        cldr_zone_from(11, name)
    });
    assert(cldr_zone_from(11, name) == if name == cldr_row(11).0 {
        Some(cldr_row(11).1)
    } else {
        cldr_zone_from(12, name)
    });
    assert(cldr_zone_from(12, name) == if name == cldr_row(12).0 {
        Some(cldr_row(12).1)
    } else {
        cldr_zone_from(13, name)
    });
    assert(cldr_zone_from(13, name) == if name == cldr_row(13).0 {
        Some(cldr_row(13).1)
    } else {
        cldr_zone_from(14, name)
    });
    assert(cldr_zone_from(14, name) == if name == cldr_row(14).0 {
        Some(cldr_row(14).1)
    } else {
        cldr_zone_from(15, name)
    });
    assert(cldr_zone_from(15, name) == if name == cldr_row(15).0 {
        Some(cldr_row(15).1)
    } else {
        cldr_zone_from(16, name)
    });
    assert(cldr_zone_from(16, name) == if name == cldr_row(16).0 {
        Some(cldr_row(16).1)
    } else {
        cldr_zone_from(17, name)
    });
    assert(cldr_zone_from(17, name) == if name == cldr_row(17).0 {
        Some(cldr_row(17).1)
    } else {
        cldr_zone_from(18, name)
    });
    assert(cldr_zone_from(18, name) == if name == cldr_row(18).0 {
        Some(cldr_row(18).1)
    } else {
        cldr_zone_from(19, name)
    });
    assert(cldr_zone_from(19, name) == if name == cldr_row(19).0 {
        Some(cldr_row(19).1)
    } else {
        cldr_zone_from(20, name)
    });
}

/// The Windows-to-IANA mapping is CLDR's windowsZones table: every name the
/// table lists maps to the table's zone (so `Eastern Standard Time` is
/// `America/New_York`), and no other name maps to anything.
pub proof fn law_windows_zones_follow_cldr(name: Seq<char>)
    ensures
        iana_zone(name) == cldr_zone_from(0, name),
{
    lemma_cldr_from_0(name);
}

fn is_str(v: &[char], s: &str) -> (b: bool)
    ensures
        b == (v@ == s@),
{
    let w = chars_of(s);
    chars_eq(v, &w)
}

/// Maps a Windows time-zone name to its IANA name, `None` when unknown.
#[verifier::rlimit(60)]
pub fn windows_to_iana(windows_tz: &str) -> (r: Option<&'static str>)
    ensures
        r matches Some(z) ==> iana_zone(windows_tz@) == Some(z@),
        r is None ==> iana_zone(windows_tz@) is None,
{
    let v = chars_of(windows_tz);
    if is_str(&v, "Dateline Standard Time") {
        Some("Etc/GMT+12")
    } else if is_str(&v, "UTC-11") {
        Some("Etc/GMT+11")
    } else if is_str(&v, "Aleutian Standard Time") {
        Some("America/Adak")
    } else if is_str(&v, "Hawaiian Standard Time") {
        Some("Pacific/Honolulu")
    } else if is_str(&v, "Marquesas Standard Time") {
        Some("Pacific/Marquesas")
    } else if is_str(&v, "Alaskan Standard Time") {
        Some("America/Anchorage")
    } else if is_str(&v, "UTC-09") {
        Some("Etc/GMT+9")
    } else if is_str(&v, "Pacific Standard Time (Mexico)") {
        Some("America/Tijuana")
    } else if is_str(&v, "UTC-08") {
        Some("Etc/GMT+8")
    } else if is_str(&v, "Pacific Standard Time") {
        Some("America/Los_Angeles")
    } else if is_str(&v, "US Mountain Standard Time") {
        Some("America/Phoenix")
    } else if is_str(&v, "Mountain Standard Time (Mexico)") {
        Some("America/Chihuahua")
    } else if is_str(&v, "Mountain Standard Time") {
        Some("America/Denver")
    } else if is_str(&v, "Yukon Standard Time") {
        Some("America/Whitehorse")
    } else if is_str(&v, "Central America Standard Time") {
        Some("America/Guatemala")
    } else if is_str(&v, "Central Standard Time") {
        Some("America/Chicago")
    } else if is_str(&v, "Easter Island Standard Time") {
        Some("Pacific/Easter")
    } else if is_str(&v, "Central Standard Time (Mexico)") {
        Some("America/Mexico_City")
    } else if is_str(&v, "Canada Central Standard Time") {
        Some("America/Regina")
    } else if is_str(&v, "SA Pacific Standard Time") {
        Some("America/Bogota")
    } else if is_str(&v, "Eastern Standard Time (Mexico)") {
        Some("America/Cancun")
    } else if is_str(&v, "Eastern Standard Time") {
        Some("America/New_York")
    } else if is_str(&v, "Haiti Standard Time") {
        Some("America/Port-au-Prince")
    } else if is_str(&v, "Cuba Standard Time") {
        Some("America/Havana")
    } else if is_str(&v, "US Eastern Standard Time") {
        Some("America/Indiana/Indianapolis")
    } else if is_str(&v, "Turks And Caicos Standard Time") {
        Some("America/Grand_Turk")
    } else if is_str(&v, "Paraguay Standard Time") {
        Some("America/Asuncion")
    } else if is_str(&v, "Atlantic Standard Time") {
        Some("America/Halifax")
    } else if is_str(&v, "Venezuela Standard Time") {
        Some("America/Caracas")
    } else if is_str(&v, "Central Brazilian Standard Time") {
        Some("America/Cuiaba")
    } else if is_str(&v, "SA Western Standard Time") {
        Some("America/La_Paz")
    } else if is_str(&v, "Pacific SA Standard Time") {
        Some("America/Santiago")
    } else if is_str(&v, "Newfoundland Standard Time") {
        Some("America/St_Johns")
    } else if is_str(&v, "Tocantins Standard Time") {
        Some("America/Araguaina")
    } else if is_str(&v, "E. South America Standard Time") {
        Some("America/Sao_Paulo")
    } else if is_str(&v, "SA Eastern Standard Time") {
        Some("America/Cayenne")
    } else if is_str(&v, "Argentina Standard Time") {
        Some("America/Buenos_Aires")
    } else if is_str(&v, "Greenland Standard Time") {
        Some("America/Godthab")
    } else if is_str(&v, "Montevideo Standard Time") {
        Some("America/Montevideo")
    } else if is_str(&v, "Magallanes Standard Time") {
        Some("America/Punta_Arenas")
    } else if is_str(&v, "Saint Pierre Standard Time") {
        Some("America/Miquelon")
    } else if is_str(&v, "Bahia Standard Time") {
        Some("America/Bahia")
    } else if is_str(&v, "UTC-02") {
        Some("Etc/GMT+2")
    } else if is_str(&v, "Azores Standard Time") {
        Some("Atlantic/Azores")
    } else if is_str(&v, "Cape Verde Standard Time") {
        Some("Atlantic/Cape_Verde")
    } else if is_str(&v, "UTC") {
        Some("Etc/GMT")
    } else if is_str(&v, "GMT Standard Time") {
        Some("Europe/London")
    } else if is_str(&v, "Greenwich Standard Time") {
        Some("Atlantic/Reykjavik")
    } else if is_str(&v, "Sao Tome Standard Time") {
        Some("Africa/Sao_Tome")
    } else if is_str(&v, "Morocco Standard Time") {
        Some("Africa/Casablanca")
    } else if is_str(&v, "W. Europe Standard Time") {
        Some("Europe/Berlin")
    } else if is_str(&v, "Central Europe Standard Time") {
        Some("Europe/Budapest")
    } else if is_str(&v, "Romance Standard Time") {
        Some("Europe/Paris")
    } else if is_str(&v, "Central European Standard Time") {
        Some("Europe/Warsaw")
    } else if is_str(&v, "W. Central Africa Standard Time") {
        Some("Africa/Lagos")
    } else if is_str(&v, "GTB Standard Time") {
        Some("Europe/Bucharest")
    } else if is_str(&v, "Middle East Standard Time") {
        Some("Asia/Beirut")
    } else if is_str(&v, "Egypt Standard Time") {
        Some("Africa/Cairo")
    } else if is_str(&v, "E. Europe Standard Time") {
        Some("Asia/Nicosia")
    } else if is_str(&v, "Syria Standard Time") {
        Some("Asia/Damascus")
    } else if is_str(&v, "West Bank Standard Time") {
        Some("Asia/Hebron")
    } else if is_str(&v, "South Africa Standard Time") {
        Some("Africa/Johannesburg")
    } else if is_str(&v, "FLE Standard Time") {
        Some("Europe/Kiev")
    } else if is_str(&v, "Israel Standard Time") {
        Some("Asia/Jerusalem")
    } else if is_str(&v, "Kaliningrad Standard Time") {
        Some("Europe/Kaliningrad")
    } else if is_str(&v, "Sudan Standard Time") {
        Some("Africa/Khartoum")
    } else if is_str(&v, "Libya Standard Time") {
        Some("Africa/Tripoli")
    } else if is_str(&v, "Namibia Standard Time") {
        Some("Africa/Windhoek")
    } else if is_str(&v, "Jordan Standard Time") {
        Some("Asia/Amman")
    } else if is_str(&v, "Arabic Standard Time") {
        Some("Asia/Baghdad")
    } else if is_str(&v, "Turkey Standard Time") {
        Some("Europe/Istanbul")
    } else if is_str(&v, "Arab Standard Time") {
        Some("Asia/Riyadh")
    } else if is_str(&v, "Belarus Standard Time") {
        Some("Europe/Minsk")
    } else if is_str(&v, "Russian Standard Time") {
        Some("Europe/Moscow")
    } else if is_str(&v, "E. Africa Standard Time") {
        Some("Africa/Nairobi")
    } else if is_str(&v, "Volga Standard Time") {
        Some("Europe/Saratov")
    } else if is_str(&v, "Iran Standard Time") {
        Some("Asia/Tehran")
    } else if is_str(&v, "Arabian Standard Time") {
        Some("Asia/Dubai")
    } else if is_str(&v, "Astrakhan Standard Time") {
        Some("Europe/Astrakhan")
    } else if is_str(&v, "Azerbaijan Standard Time") {
        Some("Asia/Baku")
    } else if is_str(&v, "Russia Time Zone 3") {
        Some("Europe/Samara")
    } else if is_str(&v, "Mauritius Standard Time") {
        Some("Indian/Mauritius")
    } else if is_str(&v, "Saratov Standard Time") {
        Some("Europe/Saratov")
    } else if is_str(&v, "Georgian Standard Time") {
        Some("Asia/Tbilisi")
    } else if is_str(&v, "Caucasus Standard Time") {
        Some("Asia/Yerevan")
    } else if is_str(&v, "Afghanistan Standard Time") {
        Some("Asia/Kabul")
    } else if is_str(&v, "West Asia Standard Time") {
        Some("Asia/Tashkent")
    } else if is_str(&v, "Ekaterinburg Standard Time") {
        Some("Asia/Yekaterinburg")
    } else if is_str(&v, "Pakistan Standard Time") {
        Some("Asia/Karachi")
    } else if is_str(&v, "Qyzylorda Standard Time") {
        Some("Asia/Qyzylorda")
    } else if is_str(&v, "India Standard Time") {
        Some("Asia/Calcutta")
    } else if is_str(&v, "Sri Lanka Standard Time") {
        Some("Asia/Colombo")
    } else if is_str(&v, "Nepal Standard Time") {
        Some("Asia/Katmandu")
    } else if is_str(&v, "Central Asia Standard Time") {
        Some("Asia/Almaty")
    } else if is_str(&v, "Bangladesh Standard Time") {
        Some("Asia/Dhaka")
    } else if is_str(&v, "Omsk Standard Time") {
        Some("Asia/Omsk")
    } else if is_str(&v, "Myanmar Standard Time") {
        Some("Asia/Rangoon")
    } else if is_str(&v, "SE Asia Standard Time") {
        Some("Asia/Bangkok")
    } else if is_str(&v, "Altai Standard Time") {
        Some("Asia/Barnaul")
    } else if is_str(&v, "W. Mongolia Standard Time") {
        Some("Asia/Hovd")
    } else if is_str(&v, "North Asia Standard Time") {
        Some("Asia/Krasnoyarsk")
    } else if is_str(&v, "N. Central Asia Standard Time") {
        Some("Asia/Novosibirsk")
    } else if is_str(&v, "Tomsk Standard Time") {
        Some("Asia/Tomsk")
    } else if is_str(&v, "China Standard Time") {
        Some("Asia/Shanghai")
    } else if is_str(&v, "North Asia East Standard Time") {
        Some("Asia/Irkutsk")
    } else if is_str(&v, "Singapore Standard Time") {
        Some("Asia/Singapore")
    } else if is_str(&v, "W. Australia Standard Time") {
        Some("Australia/Perth")
    } else if is_str(&v, "Taipei Standard Time") {
        Some("Asia/Taipei")
    } else if is_str(&v, "Ulaanbaatar Standard Time") {
        Some("Asia/Ulaanbaatar")
    } else if is_str(&v, "Aus Central W. Standard Time") {
        Some("Australia/Eucla")
    } else if is_str(&v, "Transbaikal Standard Time") {
        Some("Asia/Chita")
    } else if is_str(&v, "Tokyo Standard Time") {
        Some("Asia/Tokyo")
    } else if is_str(&v, "North Korea Standard Time") {
        Some("Asia/Pyongyang")
    } else if is_str(&v, "Korea Standard Time") {
        Some("Asia/Seoul")
    } else if is_str(&v, "Yakutsk Standard Time") {
        Some("Asia/Yakutsk")
    } else if is_str(&v, "Cen. Australia Standard Time") {
        Some("Australia/Adelaide")
    } else if is_str(&v, "AUS Central Standard Time") {
        Some("Australia/Darwin")
    } else if is_str(&v, "E. Australia Standard Time") {
        Some("Australia/Brisbane")
    } else if is_str(&v, "AUS Eastern Standard Time") {
        Some("Australia/Sydney")
    } else if is_str(&v, "West Pacific Standard Time") {
        Some("Pacific/Port_Moresby")
    } else if is_str(&v, "Tasmania Standard Time") {
        Some("Australia/Hobart")
    } else if is_str(&v, "Vladivostok Standard Time") {
        Some("Asia/Vladivostok")
    } else if is_str(&v, "Lord Howe Standard Time") {
        Some("Australia/Lord_Howe")
    } else if is_str(&v, "Bougainville Standard Time") {
        Some("Pacific/Bougainville")
    } else if is_str(&v, "Russia Time Zone 10") {
        Some("Asia/Srednekolymsk")
    } else if is_str(&v, "Magadan Standard Time") {
        Some("Asia/Magadan")
    } else if is_str(&v, "Norfolk Standard Time") {
        Some("Pacific/Norfolk")
    } else if is_str(&v, "Sakhalin Standard Time") {
        Some("Asia/Sakhalin")
    } else if is_str(&v, "Central Pacific Standard Time") {
        Some("Pacific/Guadalcanal")
    } else if is_str(&v, "Russia Time Zone 11") {
        Some("Asia/Kamchatka")
    } else if is_str(&v, "New Zealand Standard Time") {
        Some("Pacific/Auckland")
    } else if is_str(&v, "UTC+12") {
        Some("Etc/GMT-12")
    } else if is_str(&v, "Fiji Standard Time") {
        Some("Pacific/Fiji")
    } else if is_str(&v, "Chatham Islands Standard Time") {
        Some("Pacific/Chatham")
    } else if is_str(&v, "UTC+13") {
        Some("Etc/GMT-13")
    } else if is_str(&v, "Tonga Standard Time") {
        Some("Pacific/Tongatapu")
    } else if is_str(&v, "Samoa Standard Time") {
        Some("Pacific/Apia")
    } else if is_str(&v, "Line Islands Standard Time") {
        Some("Pacific/Kiritimati")
    } else {
        None
    }
}

} // verus!
