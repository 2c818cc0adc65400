//! The files the installer writes for the server: its configuration and
//! the script that starts it, and the commands it runs.

use vstd::prelude::*;
use vstd::string::*;
use crate::paths::{join_path, path_join};
use crate::text::{
    find_char, find_char_index, lemma_find_char_absent, lemma_find_char_after,
    lemma_find_char_bounds, trim, trim_str,
};

verus! {

/// The server configuration before the lines that name the distribution and
/// the country.
pub const CONFIG_HEAD: &'static str = "
// Add server to xFire
set gamename \"Call of Duty\"

// Developer settings
set developer \"0\"
set developer_script \"0\" // printLn() print to console

// Server information (visible public/getstatus)
sets ^1Owner \"<OWNER NAME>\"";

/// The server configuration between the distribution's name and the country.
pub const CONFIG_MIDDLE: &'static str = "\"\nsets ^1Location \"^2";

/// The server configuration after the lines that name the distribution and
/// the country.
pub const CONFIG_TAIL: &'static str = "
// Server options
set sv_maxclients \"16\"
set sv_hostname \"<SERVER NAME>\"
set scr_motd \"Free Palestine!\"
set sv_pure \"0\"
set g_gametype \"sd\"
set sv_maprotation \"gametype sd map mp_harbor\"

set rconpassword \"<RCON PW HERE>\"
set g_password \"<JOIN PW HERE>\"
set sv_privatepassword \"\"

set sv_privateclients \"0\"
set sv_allowdownload \"0\"
set sv_cheats \"0\"

set g_log \"\" // logPrint() logfile (default games_mp.log)
set g_logsync \"0\"
set logfile \"0\" // \"1\" output console to console_mp_server.log file

set sv_fps \"20\"
set sv_allowanonymous \"0\"
set sv_floodprotect \"1\"
set g_inactivity \"0\"

// Network options
set sv_maxrate \"0\"
set sv_maxping \"0\"
set sv_minping \"0\"

// Additional masterservers (up to sv_master5, sv_master1 default to Activision)
set sv_master2 \"master.cod.pm\"

// Game options (stock gametypes)
set g_allowvote \"0\"
set scr_allow_vote \"0\"
set scr_drawfriend \"0\"
set scr_forcerespawn \"0\"
set scr_friendlyfire \"0\"

// Deathmatch
set scr_dm_scorelimit \"50\"
set scr_dm_timelimit \"30\"

// Team Deathmatch
set scr_tdm_scorelimit \"100\"
set scr_tdm_timelimit \"30\"

// Behind Enemy Lines
set scr_bel_scorelimit \"50\"
set scr_bel_timelimit \"30\"
set scr_bel_alivepointtime \"10\"

// Retrieval
set scr_re_scorelimit \"10\"
set scr_re_timelimit \"0\"
set scr_re_graceperiod \"15\"
set scr_re_roundlength \"2.50\"
set scr_re_roundlimit \"0\"
set scr_re_showcarrier \"0\"

// Search and Destroy
set scr_sd_scorelimit \"10\"
set scr_sd_timelimit \"0\"
set scr_sd_graceperiod \"20\"
set scr_sd_roundlength \"2.50\"
set scr_sd_roundlimit \"0\"

// Weapons
set scr_allow_m1carbine \"1\"
set scr_allow_m1garand \"1\"
set scr_allow_enfield \"1\"
set scr_allow_bar \"1\"
set scr_allow_bren \"1\"
set scr_allow_mp40 \"1\"
set scr_allow_mp44 \"1\"
set scr_allow_sten \"1\"
set scr_allow_ppsh \"1\"
set scr_allow_fg42 \"1\"
set scr_allow_thompson \"1\"
set scr_allow_panzerfaust \"1\"
set scr_allow_springfield \"1\"
set scr_allow_kar98ksniper \"1\"
set scr_allow_nagantsniper \"1\"
set scr_allow_kar98k \"1\"
set scr_allow_nagant \"1\"

//set scr_allow_mg42 \"1\" // CoDaM setting

// IW1X

// Jump
set airjump_heightScale \"2\"

jump_bounceEnable \"0\" // 1 to enable bouncing

jump_height \"39\"


set fs_callbacks \"maps/mp/gametypes/_callbacksetup\"
set fs_callbacks_additional \"\" // set to \"callback\" for using miscmod chat commands
set fs_svrPaks \"\" // files that should NOT be downloaded, separate by semi-colon, omit the .pk3 extension

// Game
set g_deadChat \"1\" // allow dead players to chat
set g_debugCallbacks \"0\" // use for debugging callbacks
set g_playerEject \"0\" // eject stuck players, prevents players from standing on each other
set g_resetSlide \"0\" // stop sliding after fall damage

// Server

set sv_botHook \"0\" // Bot gsc functions

set sv_connectMessage \"\" // speaks for itself
set sv_connectMessageChallenges \"1\" // the number of challenges to show connect messages

set sv_cracked \"0\" // 1 to make the server cracked

set sv_debugRate \"0\" // use for debugging rate

set sv_heartbeatDelay \"180\" // custom heartbeat delay in seconds

set sv_statusShowDeath \"1\"
set sv_statusShowTeamScore \"1\"

set sv_spectatorNoclip \"0\"

// Download
set sv_downloadForce \"0\"
set sv_downloadNotifications \"1\"
set sv_fastDownload \"1\"

// Sprint
set player_sprint \"0\" // 1 to enable sprinting
set player_sprintMinTime \"1\" // minimum sprint time
set player_sprintTime \"4\" // Sprint time
set player_sprintSpeedScale \"1.4\" // sprint speed scale (g_speed * scale)

// VM
//set bg_fallDamageMaxHeight \"\"
//set bg_fallDamageMinHeight \"\"

// Execute CoDaM Configuration

//exec CoDaM.cfg
//exec CoDaM_HamGoodies.cfg
//exec CoDaM_MiscMod.cfg

";

/// The server configuration, naming the distribution the server runs on and
/// the country it stands in.
pub open spec fn config_of(distro: Seq<char>, country: Seq<char>) -> Seq<char> {
    CONFIG_HEAD@ + "\nsets ^1Distro \""@ + distro + CONFIG_MIDDLE@ + country + "\"\n"@
        + CONFIG_TAIL@
}

/// The text of `main/myserver.cfg`.
pub fn config_text(distro: &str, country: &str) -> (r: String)
    ensures
        r@ == config_of(distro@, country@),
{
    let mut out = String::from_str(CONFIG_HEAD);
    out.append("\nsets ^1Distro \"");
    out.append(distro);
    out.append(CONFIG_MIDDLE);
    out.append(country);
    out.append("\"\n");
    out.append(CONFIG_TAIL);
    out
}

/// The start script for the server directory `target`: it preloads the
/// iw1x library into the dedicated server and points both of the server's
/// paths at `target`.
pub open spec fn start_script_of(target: Seq<char>) -> Seq<char> {
    "#!/bin/bash\nLD_PRELOAD=\""@ + path_join(target, "iw1x.so"@) + "\" \""@ + path_join(
        target,
        "cod_lnxded"@,
    ) + "\" +set fs_homepath \""@ + target + "\" +set fs_basepath \""@ + target
        + "\" +set developer_script 1 +exec myserver.cfg +map_rotate\n"@
}

/// The text of `start.sh` for the server directory `target`.
pub fn start_script(target: &str) -> (r: String)
    ensures
        r@ == start_script_of(target@),
{
    let preload = join_path(target, "iw1x.so");
    let exe = join_path(target, "cod_lnxded");
    let mut out = String::from_str("#!/bin/bash\nLD_PRELOAD=\"");
    out.append(preload.as_str());
    out.append("\" \"");
    out.append(exe.as_str());
    out.append("\" +set fs_homepath \"");
    out.append(target);
    out.append("\" +set fs_basepath \"");
    out.append(target);
    out.append("\" +set developer_script 1 +exec myserver.cfg +map_rotate\n");
    out
}

/// The second `/`-separated part of a time zone name, trimmed: the city of
/// `Europe/Berlin`; `None` when the name holds no `/`.
pub open spec fn time_zone_city_of(tz: Seq<char>) -> Option<Seq<char>> {
    let k = find_char(tz, '/');
    if k == tz.len() {
        None
    } else {
        let rest = tz.subrange(k + 1, tz.len() as int);
        Some(trim(rest.subrange(0, find_char(rest, '/'))))
    }
}

/// The city part of an IANA time zone name such as `Europe/Berlin`.
pub fn time_zone_city(tz: &str) -> (r: Option<String>)
    ensures
        r matches Some(c) ==> time_zone_city_of(tz@) == Some(c@),
        r is None ==> time_zone_city_of(tz@) is None,
{
    let n = tz.unicode_len();
    let k = find_char_index(tz, '/');
    proof {
        lemma_find_char_bounds(tz@, '/');
    }
    if k == n {
        return None;
    }
    let rest = tz.substring_char(k + 1, n);
    let j = find_char_index(rest, '/');
    proof {
        lemma_find_char_bounds(rest@, '/');
    }
    let city = trim_str(rest.substring_char(0, j));
    Some(String::from_str(city))
}

/// The shell command that makes `file` executable.
pub fn chmod_command(file: &str) -> (r: String)
    ensures
        r@ == "chmod +x "@ + file@,
{
    let mut out = String::from_str("chmod +x ");
    out.append(file);
    out
}

/// The city is the whole second `/`-separated part of the time zone name,
/// trimmed: only a `/` ends it, whether or not a third part follows; a name
/// without `/` has no city.
pub proof fn law_time_zone_city_is_second_part(
    a: Seq<char>,
    c: Seq<char>,
    d: Seq<char>,
    plain: Seq<char>,
)
    requires
        !a.contains('/'),
        !c.contains('/'),
        !plain.contains('/'),
    ensures
        time_zone_city_of(a + seq!['/'] + c) == Some(trim(c)),
        time_zone_city_of(a + seq!['/'] + c + seq!['/'] + d) == Some(trim(c)),
        time_zone_city_of(plain) is None,
{
    lemma_find_char_absent(plain, '/');
    let tz = a + seq!['/'] + c;
    lemma_find_char_after(a, c, '/');
    assert(tz.subrange(a.len() as int + 1, tz.len() as int) =~= c);
    lemma_find_char_absent(c, '/');
    assert(c.subrange(0, c.len() as int) =~= c);
    let tz2 = a + seq!['/'] + c + seq!['/'] + d;
    let rest = c + seq!['/'] + d;
    assert(tz2 =~= a + seq!['/'] + rest);
    lemma_find_char_after(a, rest, '/');
    assert(tz2.subrange(a.len() as int + 1, tz2.len() as int) =~= rest);
    lemma_find_char_after(c, d, '/');
    assert(rest.subrange(0, c.len() as int) =~= c);
}

/// The configuration names the distribution on a line of its own,
/// `sets ^1Distro "<distro>"`, followed by the line
/// `sets ^1Location "^2<country>"`, whatever else it holds.
pub proof fn law_config_names_distro_and_country(distro: Seq<char>, country: Seq<char>)
    ensures
        exists|before: Seq<char>, after: Seq<char>|
            config_of(distro, country) == before + "\nsets ^1Distro \""@ + distro
                + "\"\nsets ^1Location \"^2"@ + country + "\"\n"@ + after,
{
    let before = CONFIG_HEAD@;
    let after = CONFIG_TAIL@;
    assert(config_of(distro, country) == before + "\nsets ^1Distro \""@ + distro
        + "\"\nsets ^1Location \"^2"@ + country + "\"\n"@ + after);
}

/// For a server directory named without a trailing `/`, the start script is
/// the shell line, then one command that preloads `<dir>/iw1x.so` into
/// `<dir>/cod_lnxded`, points both server paths at `<dir>`, runs the
/// configuration and starts the map rotation.
pub proof fn law_start_script_text(t: Seq<char>)
    requires
        t.len() > 0,
        t.last() != '/',
    ensures
        start_script_of(t) == "#!/bin/bash\nLD_PRELOAD=\""@ + t + "/iw1x.so\" \""@ + t
            + "/cod_lnxded\" +set fs_homepath \""@ + t + "\" +set fs_basepath \""@ + t
            + "\" +set developer_script 1 +exec myserver.cfg +map_rotate\n"@,
{
    reveal_strlit("iw1x.so");
    reveal_strlit("cod_lnxded");
    reveal_strlit("\" \"");
    reveal_strlit("/iw1x.so\" \"");
    reveal_strlit("/cod_lnxded\" +set fs_homepath \"");
    reveal_strlit("\" +set fs_homepath \"");
    assert("iw1x.so"@[0] == 'i');
    assert("cod_lnxded"@[0] == 'c');
    let a = "#!/bin/bash\nLD_PRELOAD=\""@;
    let m1 = "\" \""@;
    let m2 = "\" +set fs_homepath \""@;
    let r = "\" +set fs_basepath \""@ + t + "\" +set developer_script 1 +exec myserver.cfg +map_rotate\n"@;
    assert(a + (t + seq!['/'] + "iw1x.so"@) + m1 + (t + seq!['/'] + "cod_lnxded"@) + m2 + t + r
        =~= a + t + "/iw1x.so\" \""@ + t + "/cod_lnxded\" +set fs_homepath \""@ + t + r);
}

} // verus!
