use vstd::prelude::*;
use crate::error::DemoParserError;

verus! {

pub type AliasTable = Seq<(Seq<char>, Seq<char>)>;

pub open spec fn table_view(t: Seq<(String, String)>) -> AliasTable {
    t.map_values(|p: (String, String)| (p.0@, p.1@))
}

/// The name that the first entry with this alias gives.
pub open spec fn alias_lookup(t: AliasTable, k: Seq<char>) -> Option<Seq<char>>
    decreases t.len(),
{
    if t.len() == 0 {
        None
    } else if t[0].0 == k {
        Some(t[0].1)
    } else {
        alias_lookup(t.drop_first(), k)
    }
}

/// The alias of the first entry with this name.
pub open spec fn alias_reverse(t: AliasTable, v: Seq<char>) -> Option<Seq<char>>
    decreases t.len(),
{
    if t.len() == 0 {
        None
    } else if t[0].1 == v {
        Some(t[0].0)
    } else {
        alias_reverse(t.drop_first(), v)
    }
}

/// Whether no alias and no name occurs twice.
pub open spec fn injective(t: AliasTable) -> bool {
    forall|i: int, j: int|
        0 <= i < j < t.len() ==> (#[trigger] t[i]).0 != (#[trigger] t[j]).0 && t[i].1 != t[j].1
}

/// Resolving an alias and then going back from the name gives the alias again, when the
/// table is injective.
pub proof fn lemma_alias_involutive(t: AliasTable, k: Seq<char>)
    requires
        injective(t),
        alias_lookup(t, k) is Some,
    ensures
        alias_reverse(t, alias_lookup(t, k)->Some_0) == Some(k),
    decreases t.len(),
{
    if t[0].0 != k {
        let rest = t.drop_first();
        assert(injective(rest)) by {
            assert forall|i: int, j: int| 0 <= i < j < rest.len() implies (#[trigger] rest[i]).0
                != (#[trigger] rest[j]).0 && rest[i].1 != rest[j].1 by {
                assert(rest[i] == t[i + 1] && rest[j] == t[j + 1]);
                assert(t[i + 1].0 != t[j + 1].0 && t[i + 1].1 != t[j + 1].1);
            }
        }
        lemma_alias_involutive(rest, k);
        lemma_reverse_skips_first(t, alias_lookup(t, k)->Some_0, k);
    }
}

proof fn lemma_lookup_in_table(t: AliasTable, k: Seq<char>) -> (i: int)
    requires
        alias_lookup(t, k) is Some,
    ensures
        0 <= i < t.len(),
        t[i].0 == k,
        t[i].1 == alias_lookup(t, k)->Some_0,
    decreases t.len(),
{
    if t[0].0 == k {
        0
    } else {
        let j = lemma_lookup_in_table(t.drop_first(), k);
        j + 1
    }
}

proof fn lemma_reverse_skips_first(t: AliasTable, v: Seq<char>, k: Seq<char>)
    requires
        injective(t),
        t.len() > 0,
        t[0].0 != k,
        alias_lookup(t, k) is Some,
        v == alias_lookup(t, k)->Some_0,
    ensures
        t[0].1 != v,
{
    let i = lemma_lookup_in_table(t, k);
    assert(i != 0);
}

/// The alias table: user-facing property names and the property paths they stand for.
pub open spec fn friendly_table() -> AliasTable {
    alias_chunk_0()
        + alias_chunk_1()
        + alias_chunk_2()
        + alias_chunk_3()
        + alias_chunk_4()
        + alias_chunk_5()
        + alias_chunk_6()
        + alias_chunk_7()
        + alias_chunk_8()
        + alias_chunk_9()
        + alias_chunk_10()
        + alias_chunk_11()
        + alias_chunk_12()
        + alias_chunk_13()
        + alias_chunk_14()
        + alias_chunk_15()
        + alias_chunk_16()
        + alias_chunk_17()
        + alias_chunk_18()
        + alias_chunk_19()
        + alias_chunk_20()
        + alias_chunk_21()
        + alias_chunk_22()
        + alias_chunk_23()
}

/// Entries 0 to 9 of the alias table.
pub open spec fn alias_chunk_0() -> AliasTable {
    seq![
        ("team_surrendered"@, "CCSTeam.m_bSurrendered"@),
        ("team_rounds_total"@, "CCSTeam.m_iScore"@),
        ("team_name"@, "CCSTeam.m_szTeamname"@),
        ("team_score_overtime"@, "CCSTeam.m_scoreOvertime"@),
        ("team_match_stat"@, "CCSTeam.m_szTeamMatchStat"@),
        ("team_num_map_victories"@, "CCSTeam.m_numMapVictories"@),
        ("team_score_first_half"@, "CCSTeam.m_scoreFirstHalf"@),
        ("team_score_second_half"@, "CCSTeam.m_scoreSecondHalf"@),
        ("team_clan_name"@, "CCSTeam.m_szClanTeamname"@),
        ("is_freeze_period"@, "CCSGameRulesProxy.CCSGameRules.m_bFreezePeriod"@),
    ]
}

/// Appends entries 0 to 9 of the alias table.
fn push_alias_chunk_0(t: &mut Vec<(String, String)>)
    ensures
        table_view(final(t)@) == table_view(old(t)@) + alias_chunk_0(),
{
    proof {
        broadcast use vstd::string::to_string_from_display_ensures_for_str;
    }
    t.push(("team_surrendered".to_string(), "CCSTeam.m_bSurrendered".to_string()));
    t.push(("team_rounds_total".to_string(), "CCSTeam.m_iScore".to_string()));
    t.push(("team_name".to_string(), "CCSTeam.m_szTeamname".to_string()));
    t.push(("team_score_overtime".to_string(), "CCSTeam.m_scoreOvertime".to_string()));
    t.push(("team_match_stat".to_string(), "CCSTeam.m_szTeamMatchStat".to_string()));
    t.push(("team_num_map_victories".to_string(), "CCSTeam.m_numMapVictories".to_string()));
    t.push(("team_score_first_half".to_string(), "CCSTeam.m_scoreFirstHalf".to_string()));
    t.push(("team_score_second_half".to_string(), "CCSTeam.m_scoreSecondHalf".to_string()));
    t.push(("team_clan_name".to_string(), "CCSTeam.m_szClanTeamname".to_string()));
    t.push(("is_freeze_period".to_string(), "CCSGameRulesProxy.CCSGameRules.m_bFreezePeriod".to_string()));
    proof {
        assert(table_view(t@) =~= table_view(old(t)@) + alias_chunk_0());
    }
}

/// Entries 10 to 19 of the alias table.
pub open spec fn alias_chunk_1() -> AliasTable {
    seq![
        ("is_warmup_period"@, "CCSGameRulesProxy.CCSGameRules.m_bWarmupPeriod"@),
        ("warmup_period_end"@, "CCSGameRulesProxy.CCSGameRules.m_fWarmupPeriodEnd"@),
        ("warmup_period_start"@, "CCSGameRulesProxy.CCSGameRules.m_fWarmupPeriodStart"@),
        ("is_terrorist_timeout"@, "CCSGameRulesProxy.CCSGameRules.m_bTerroristTimeOutActive"@),
        ("is_ct_timeout"@, "CCSGameRulesProxy.CCSGameRules.m_bCTTimeOutActive"@),
        ("terrorist_timeout_remaining"@, "CCSGameRulesProxy.CCSGameRules.m_flTerroristTimeOutRemaining"@),
        ("ct_timeout_remaining"@, "CCSGameRulesProxy.CCSGameRules.m_flCTTimeOutRemaining"@),
        ("num_terrorist_timeouts"@, "CCSGameRulesProxy.CCSGameRules.m_nTerroristTimeOuts"@),
        ("num_ct_timeouts"@, "CCSGameRulesProxy.CCSGameRules.m_nCTTimeOuts"@),
        ("is_technical_timeout"@, "CCSGameRulesProxy.CCSGameRules.m_bTechnicalTimeOut"@),
    ]
}

/// Appends entries 10 to 19 of the alias table.
fn push_alias_chunk_1(t: &mut Vec<(String, String)>)
    ensures
        table_view(final(t)@) == table_view(old(t)@) + alias_chunk_1(),
{
    proof {
        broadcast use vstd::string::to_string_from_display_ensures_for_str;
    }
    t.push(("is_warmup_period".to_string(), "CCSGameRulesProxy.CCSGameRules.m_bWarmupPeriod".to_string()));
    t.push(("warmup_period_end".to_string(), "CCSGameRulesProxy.CCSGameRules.m_fWarmupPeriodEnd".to_string()));
    t.push(("warmup_period_start".to_string(), "CCSGameRulesProxy.CCSGameRules.m_fWarmupPeriodStart".to_string()));
    t.push(("is_terrorist_timeout".to_string(), "CCSGameRulesProxy.CCSGameRules.m_bTerroristTimeOutActive".to_string()));
    t.push(("is_ct_timeout".to_string(), "CCSGameRulesProxy.CCSGameRules.m_bCTTimeOutActive".to_string()));
    t.push(("terrorist_timeout_remaining".to_string(), "CCSGameRulesProxy.CCSGameRules.m_flTerroristTimeOutRemaining".to_string()));
    t.push(("ct_timeout_remaining".to_string(), "CCSGameRulesProxy.CCSGameRules.m_flCTTimeOutRemaining".to_string()));
    t.push(("num_terrorist_timeouts".to_string(), "CCSGameRulesProxy.CCSGameRules.m_nTerroristTimeOuts".to_string()));
    t.push(("num_ct_timeouts".to_string(), "CCSGameRulesProxy.CCSGameRules.m_nCTTimeOuts".to_string()));
    t.push(("is_technical_timeout".to_string(), "CCSGameRulesProxy.CCSGameRules.m_bTechnicalTimeOut".to_string()));
    proof {
        assert(table_view(t@) =~= table_view(old(t)@) + alias_chunk_1());
    }
}

/// Entries 20 to 29 of the alias table.
pub open spec fn alias_chunk_2() -> AliasTable {
    seq![
        ("is_waiting_for_resume"@, "CCSGameRulesProxy.CCSGameRules.m_bMatchWaitingForResume"@),
        ("match_start_time"@, "CCSGameRulesProxy.CCSGameRules.m_fMatchStartTime"@),
        ("round_start_time"@, "CCSGameRulesProxy.CCSGameRules.m_fRoundStartTime"@),
        ("restart_round_time"@, "CCSGameRulesProxy.CCSGameRules.m_flRestartRoundTime"@),
        ("is_game_restart?"@, "CCSGameRulesProxy.CCSGameRules.m_bGameRestart"@),
        ("game_start_time"@, "CCSGameRulesProxy.CCSGameRules.m_flGameStartTime"@),
        ("time_until_next_phase_start"@, "CCSGameRulesProxy.CCSGameRules.m_timeUntilNextPhaseStarts"@),
        ("game_phase"@, "CCSGameRulesProxy.CCSGameRules.m_gamePhase"@),
        ("total_rounds_played"@, "CCSGameRulesProxy.CCSGameRules.m_totalRoundsPlayed"@),
        ("rounds_played_this_phase"@, "CCSGameRulesProxy.CCSGameRules.m_nRoundsPlayedThisPhase"@),
    ]
}

/// Appends entries 20 to 29 of the alias table.
fn push_alias_chunk_2(t: &mut Vec<(String, String)>)
    ensures
        table_view(final(t)@) == table_view(old(t)@) + alias_chunk_2(),
{
    proof {
        broadcast use vstd::string::to_string_from_display_ensures_for_str;
    }
    t.push(("is_waiting_for_resume".to_string(), "CCSGameRulesProxy.CCSGameRules.m_bMatchWaitingForResume".to_string()));
    t.push(("match_start_time".to_string(), "CCSGameRulesProxy.CCSGameRules.m_fMatchStartTime".to_string()));
    t.push(("round_start_time".to_string(), "CCSGameRulesProxy.CCSGameRules.m_fRoundStartTime".to_string()));
    t.push(("restart_round_time".to_string(), "CCSGameRulesProxy.CCSGameRules.m_flRestartRoundTime".to_string()));
    t.push(("is_game_restart?".to_string(), "CCSGameRulesProxy.CCSGameRules.m_bGameRestart".to_string()));
    t.push(("game_start_time".to_string(), "CCSGameRulesProxy.CCSGameRules.m_flGameStartTime".to_string()));
    t.push(("time_until_next_phase_start".to_string(), "CCSGameRulesProxy.CCSGameRules.m_timeUntilNextPhaseStarts".to_string()));
    t.push(("game_phase".to_string(), "CCSGameRulesProxy.CCSGameRules.m_gamePhase".to_string()));
    t.push(("total_rounds_played".to_string(), "CCSGameRulesProxy.CCSGameRules.m_totalRoundsPlayed".to_string()));
    t.push(("rounds_played_this_phase".to_string(), "CCSGameRulesProxy.CCSGameRules.m_nRoundsPlayedThisPhase".to_string()));
    proof {
        assert(table_view(t@) =~= table_view(old(t)@) + alias_chunk_2());
    }
}

/// Entries 30 to 39 of the alias table.
pub open spec fn alias_chunk_3() -> AliasTable {
    seq![
        ("hostages_remaining"@, "CCSGameRulesProxy.CCSGameRules.m_iHostagesRemaining"@),
        ("any_hostages_reached"@, "CCSGameRulesProxy.CCSGameRules.m_bAnyHostageReached"@),
        ("has_bombites"@, "CCSGameRulesProxy.CCSGameRules.m_bMapHasBombTarget"@),
        ("has_rescue_zone"@, "CCSGameRulesProxy.CCSGameRules.m_bMapHasRescueZone"@),
        ("has_buy_zone"@, "CCSGameRulesProxy.CCSGameRules.m_bMapHasBuyZone"@),
        ("is_matchmaking"@, "CCSGameRulesProxy.CCSGameRules.m_bIsQueuedMatchmaking"@),
        ("match_making_mode"@, "CCSGameRulesProxy.CCSGameRules.m_nQueuedMatchmakingMode"@),
        ("is_valve_dedicated_server"@, "CCSGameRulesProxy.CCSGameRules.m_bIsValveDS"@),
        ("gungame_prog_weap_ct"@, "CCSGameRulesProxy.CCSGameRules.m_iNumGunGameProgressiveWeaponsCT"@),
        ("gungame_prog_weap_t"@, "CCSGameRulesProxy.CCSGameRules.m_iNumGunGameProgressiveWeaponsT"@),
    ]
}

/// Appends entries 30 to 39 of the alias table.
fn push_alias_chunk_3(t: &mut Vec<(String, String)>)
    ensures
        table_view(final(t)@) == table_view(old(t)@) + alias_chunk_3(),
{
    proof {
        broadcast use vstd::string::to_string_from_display_ensures_for_str;
    }
    t.push(("hostages_remaining".to_string(), "CCSGameRulesProxy.CCSGameRules.m_iHostagesRemaining".to_string()));
    t.push(("any_hostages_reached".to_string(), "CCSGameRulesProxy.CCSGameRules.m_bAnyHostageReached".to_string()));
    t.push(("has_bombites".to_string(), "CCSGameRulesProxy.CCSGameRules.m_bMapHasBombTarget".to_string()));
    t.push(("has_rescue_zone".to_string(), "CCSGameRulesProxy.CCSGameRules.m_bMapHasRescueZone".to_string()));
    t.push(("has_buy_zone".to_string(), "CCSGameRulesProxy.CCSGameRules.m_bMapHasBuyZone".to_string()));
    t.push(("is_matchmaking".to_string(), "CCSGameRulesProxy.CCSGameRules.m_bIsQueuedMatchmaking".to_string()));
    t.push(("match_making_mode".to_string(), "CCSGameRulesProxy.CCSGameRules.m_nQueuedMatchmakingMode".to_string()));
    t.push(("is_valve_dedicated_server".to_string(), "CCSGameRulesProxy.CCSGameRules.m_bIsValveDS".to_string()));
    t.push(("gungame_prog_weap_ct".to_string(), "CCSGameRulesProxy.CCSGameRules.m_iNumGunGameProgressiveWeaponsCT".to_string()));
    t.push(("gungame_prog_weap_t".to_string(), "CCSGameRulesProxy.CCSGameRules.m_iNumGunGameProgressiveWeaponsT".to_string()));
    proof {
        assert(table_view(t@) =~= table_view(old(t)@) + alias_chunk_3());
    }
}

/// Entries 40 to 49 of the alias table.
pub open spec fn alias_chunk_4() -> AliasTable {
    seq![
        ("spectator_slot_count"@, "CCSGameRulesProxy.CCSGameRules.m_iSpectatorSlotCount"@),
        ("is_match_started"@, "CCSGameRulesProxy.CCSGameRules.m_bHasMatchStarted"@),
        ("n_best_of_maps"@, "CCSGameRulesProxy.CCSGameRules.m_numBestOfMaps"@),
        ("is_bomb_dropped"@, "CCSGameRulesProxy.CCSGameRules.m_bBombDropped"@),
        ("is_bomb_planed"@, "CCSGameRulesProxy.CCSGameRules.m_bBombPlanted"@),
        ("round_win_status"@, "CCSGameRulesProxy.CCSGameRules.m_iRoundWinStatus"@),
        ("round_win_reason"@, "CCSGameRulesProxy.CCSGameRules.m_eRoundWinReason"@),
        ("terrorist_cant_buy"@, "CCSGameRulesProxy.CCSGameRules.m_bTCantBuy"@),
        ("ct_cant_buy"@, "CCSGameRulesProxy.CCSGameRules.m_bCTCantBuy"@),
        ("num_player_alive_ct"@, "CCSGameRulesProxy.CCSGameRules.m_iMatchStats_PlayersAlive_CT"@),
    ]
}

/// Appends entries 40 to 49 of the alias table.
fn push_alias_chunk_4(t: &mut Vec<(String, String)>)
    ensures
        table_view(final(t)@) == table_view(old(t)@) + alias_chunk_4(),
{
    proof {
        broadcast use vstd::string::to_string_from_display_ensures_for_str;
    }
    t.push(("spectator_slot_count".to_string(), "CCSGameRulesProxy.CCSGameRules.m_iSpectatorSlotCount".to_string()));
    t.push(("is_match_started".to_string(), "CCSGameRulesProxy.CCSGameRules.m_bHasMatchStarted".to_string()));
    t.push(("n_best_of_maps".to_string(), "CCSGameRulesProxy.CCSGameRules.m_numBestOfMaps".to_string()));
    t.push(("is_bomb_dropped".to_string(), "CCSGameRulesProxy.CCSGameRules.m_bBombDropped".to_string()));
    t.push(("is_bomb_planed".to_string(), "CCSGameRulesProxy.CCSGameRules.m_bBombPlanted".to_string()));
    t.push(("round_win_status".to_string(), "CCSGameRulesProxy.CCSGameRules.m_iRoundWinStatus".to_string()));
    t.push(("round_win_reason".to_string(), "CCSGameRulesProxy.CCSGameRules.m_eRoundWinReason".to_string()));
    t.push(("terrorist_cant_buy".to_string(), "CCSGameRulesProxy.CCSGameRules.m_bTCantBuy".to_string()));
    t.push(("ct_cant_buy".to_string(), "CCSGameRulesProxy.CCSGameRules.m_bCTCantBuy".to_string()));
    t.push(("num_player_alive_ct".to_string(), "CCSGameRulesProxy.CCSGameRules.m_iMatchStats_PlayersAlive_CT".to_string()));
    proof {
        assert(table_view(t@) =~= table_view(old(t)@) + alias_chunk_4());
    }
}

/// Entries 50 to 59 of the alias table.
pub open spec fn alias_chunk_5() -> AliasTable {
    seq![
        ("num_player_alive_t"@, "CCSGameRulesProxy.CCSGameRules.m_iMatchStats_PlayersAlive_T"@),
        ("ct_losing_streak"@, "CCSGameRulesProxy.CCSGameRules.m_iNumConsecutiveCTLoses"@),
        ("t_losing_streak"@, "CCSGameRulesProxy.CCSGameRules.m_iNumConsecutiveTerroristLoses"@),
        ("survival_start_time"@, "CCSGameRulesProxy.CCSGameRules.m_flSurvivalStartTime"@),
        ("round_in_progress"@, "CCSGameRulesProxy.CCSGameRules.m_bRoundInProgress"@),
        ("i_bomb_site?"@, "CCSGameRulesProxy.CCSGameRules.m_iBombSite"@),
        ("is_auto_muted"@, "CCSPlayerController.m_bHasCommunicationAbuseMute"@),
        ("crosshair_code"@, "CCSPlayerController.m_szCrosshairCodes"@),
        ("pending_team_num"@, "CCSPlayerController.m_iPendingTeamNum"@),
        ("player_color"@, "CCSPlayerController.m_iCompTeammateColor"@),
    ]
}

/// Appends entries 50 to 59 of the alias table.
fn push_alias_chunk_5(t: &mut Vec<(String, String)>)
    ensures
        table_view(final(t)@) == table_view(old(t)@) + alias_chunk_5(),
{
    proof {
        broadcast use vstd::string::to_string_from_display_ensures_for_str;
    }
    t.push(("num_player_alive_t".to_string(), "CCSGameRulesProxy.CCSGameRules.m_iMatchStats_PlayersAlive_T".to_string()));
    t.push(("ct_losing_streak".to_string(), "CCSGameRulesProxy.CCSGameRules.m_iNumConsecutiveCTLoses".to_string()));
    t.push(("t_losing_streak".to_string(), "CCSGameRulesProxy.CCSGameRules.m_iNumConsecutiveTerroristLoses".to_string()));
    t.push(("survival_start_time".to_string(), "CCSGameRulesProxy.CCSGameRules.m_flSurvivalStartTime".to_string()));
    t.push(("round_in_progress".to_string(), "CCSGameRulesProxy.CCSGameRules.m_bRoundInProgress".to_string()));
    t.push(("i_bomb_site?".to_string(), "CCSGameRulesProxy.CCSGameRules.m_iBombSite".to_string()));
    t.push(("is_auto_muted".to_string(), "CCSPlayerController.m_bHasCommunicationAbuseMute".to_string()));
    t.push(("crosshair_code".to_string(), "CCSPlayerController.m_szCrosshairCodes".to_string()));
    t.push(("pending_team_num".to_string(), "CCSPlayerController.m_iPendingTeamNum".to_string()));
    t.push(("player_color".to_string(), "CCSPlayerController.m_iCompTeammateColor".to_string()));
    proof {
        assert(table_view(t@) =~= table_view(old(t)@) + alias_chunk_5());
    }
}

/// Entries 60 to 69 of the alias table.
pub open spec fn alias_chunk_6() -> AliasTable {
    seq![
        ("ever_played_on_team"@, "CCSPlayerController.m_bEverPlayedOnTeam"@),
        ("clan_name"@, "CCSPlayerController.m_szClan"@),
        ("is_coach_team"@, "CCSPlayerController.m_iCoachingTeam"@),
        ("comp_rank"@, "CCSPlayerController.m_iCompetitiveRanking"@),
        ("comp_wins"@, "CCSPlayerController.m_iCompetitiveWins"@),
        ("comp_rank_type"@, "CCSPlayerController.m_iCompetitiveRankType"@),
        ("is_controlling_bot"@, "CCSPlayerController.m_bControllingBot"@),
        ("has_controlled_bot_this_round"@, "CCSPlayerController.m_bHasControlledBotThisRound"@),
        ("can_control_bot"@, "CCSPlayerController.m_bCanControlObservedBot"@),
        ("is_alive"@, "CCSPlayerController.m_bPawnIsAlive"@),
    ]
}

/// Appends entries 60 to 69 of the alias table.
fn push_alias_chunk_6(t: &mut Vec<(String, String)>)
    ensures
        table_view(final(t)@) == table_view(old(t)@) + alias_chunk_6(),
{
    proof {
        broadcast use vstd::string::to_string_from_display_ensures_for_str;
    }
    t.push(("ever_played_on_team".to_string(), "CCSPlayerController.m_bEverPlayedOnTeam".to_string()));
    t.push(("clan_name".to_string(), "CCSPlayerController.m_szClan".to_string()));
    t.push(("is_coach_team".to_string(), "CCSPlayerController.m_iCoachingTeam".to_string()));
    t.push(("comp_rank".to_string(), "CCSPlayerController.m_iCompetitiveRanking".to_string()));
    t.push(("comp_wins".to_string(), "CCSPlayerController.m_iCompetitiveWins".to_string()));
    t.push(("comp_rank_type".to_string(), "CCSPlayerController.m_iCompetitiveRankType".to_string()));
    t.push(("is_controlling_bot".to_string(), "CCSPlayerController.m_bControllingBot".to_string()));
    t.push(("has_controlled_bot_this_round".to_string(), "CCSPlayerController.m_bHasControlledBotThisRound".to_string()));
    t.push(("can_control_bot".to_string(), "CCSPlayerController.m_bCanControlObservedBot".to_string()));
    t.push(("is_alive".to_string(), "CCSPlayerController.m_bPawnIsAlive".to_string()));
    proof {
        assert(table_view(t@) =~= table_view(old(t)@) + alias_chunk_6());
    }
}

/// Entries 70 to 79 of the alias table.
pub open spec fn alias_chunk_7() -> AliasTable {
    seq![
        ("armor"@, "CCSPlayerController.m_iPawnArmor"@),
        ("has_defuser"@, "CCSPlayerController.m_bPawnHasDefuser"@),
        ("has_helmet"@, "CCSPlayerController.m_bPawnHasHelmet"@),
        ("spawn_time"@, "CCSPlayerController.m_iPawnLifetimeStart"@),
        ("death_time"@, "CCSPlayerController.m_iPawnLifetimeEnd"@),
        ("score"@, "CCSPlayerController.m_iScore"@),
        ("game_time"@, "CCSPlayerController.m_flSimulationTime"@),
        ("is_connected"@, "CCSPlayerController.m_iConnected"@),
        ("player_name"@, "CCSPlayerController.m_iszPlayerName"@),
        ("player_steamid"@, "CCSPlayerController.m_steamID"@),
    ]
}

/// Appends entries 70 to 79 of the alias table.
fn push_alias_chunk_7(t: &mut Vec<(String, String)>)
    ensures
        table_view(final(t)@) == table_view(old(t)@) + alias_chunk_7(),
{
    proof {
        broadcast use vstd::string::to_string_from_display_ensures_for_str;
    }
    t.push(("armor".to_string(), "CCSPlayerController.m_iPawnArmor".to_string()));
    t.push(("has_defuser".to_string(), "CCSPlayerController.m_bPawnHasDefuser".to_string()));
    t.push(("has_helmet".to_string(), "CCSPlayerController.m_bPawnHasHelmet".to_string()));
    t.push(("spawn_time".to_string(), "CCSPlayerController.m_iPawnLifetimeStart".to_string()));
    t.push(("death_time".to_string(), "CCSPlayerController.m_iPawnLifetimeEnd".to_string()));
    t.push(("score".to_string(), "CCSPlayerController.m_iScore".to_string()));
    t.push(("game_time".to_string(), "CCSPlayerController.m_flSimulationTime".to_string()));
    t.push(("is_connected".to_string(), "CCSPlayerController.m_iConnected".to_string()));
    t.push(("player_name".to_string(), "CCSPlayerController.m_iszPlayerName".to_string()));
    t.push(("player_steamid".to_string(), "CCSPlayerController.m_steamID".to_string()));
    proof {
        assert(table_view(t@) =~= table_view(old(t)@) + alias_chunk_7());
    }
}

/// Entries 80 to 89 of the alias table.
pub open spec fn alias_chunk_8() -> AliasTable {
    seq![
        ("fov"@, "CCSPlayerController.m_iDesiredFOV"@),
        ("balance"@, "CCSPlayerController.CCSPlayerController_InGameMoneyServices.m_iAccount"@),
        ("start_balance"@, "CCSPlayerController.CCSPlayerController_InGameMoneyServices.m_iStartAccount"@),
        ("total_cash_spent"@, "CCSPlayerController.CCSPlayerController_InGameMoneyServices.m_iTotalCashSpent"@),
        ("cash_spent_this_round"@, "CCSPlayerController.CCSPlayerController_InGameMoneyServices.m_iCashSpentThisRound"@),
        ("music_kit_id"@, "CCSPlayerController.CCSPlayerController_InventoryServices.m_unMusicID"@),
        ("leader_honors"@, "CCSPlayerController.CCSPlayerController_InventoryServices.m_nPersonaDataPublicCommendsLeader"@),
        ("teacher_honors"@, "CCSPlayerController.CCSPlayerController_InventoryServices.m_nPersonaDataPublicCommendsTeacher"@),
        ("friendly_honors"@, "CCSPlayerController.CCSPlayerController_InventoryServices.m_nPersonaDataPublicCommendsFriendly"@),
        ("kills_this_round"@, "CCSPlayerController.CCSPlayerController_ActionTrackingServices.CSPerRoundStats_t.m_iKills"@),
    ]
}

/// Appends entries 80 to 89 of the alias table.
fn push_alias_chunk_8(t: &mut Vec<(String, String)>)
    ensures
        table_view(final(t)@) == table_view(old(t)@) + alias_chunk_8(),
{
    proof {
        broadcast use vstd::string::to_string_from_display_ensures_for_str;
    }
    t.push(("fov".to_string(), "CCSPlayerController.m_iDesiredFOV".to_string()));
    t.push(("balance".to_string(), "CCSPlayerController.CCSPlayerController_InGameMoneyServices.m_iAccount".to_string()));
    t.push(("start_balance".to_string(), "CCSPlayerController.CCSPlayerController_InGameMoneyServices.m_iStartAccount".to_string()));
    t.push(("total_cash_spent".to_string(), "CCSPlayerController.CCSPlayerController_InGameMoneyServices.m_iTotalCashSpent".to_string()));
    t.push(("cash_spent_this_round".to_string(), "CCSPlayerController.CCSPlayerController_InGameMoneyServices.m_iCashSpentThisRound".to_string()));
    t.push(("music_kit_id".to_string(), "CCSPlayerController.CCSPlayerController_InventoryServices.m_unMusicID".to_string()));
    t.push(("leader_honors".to_string(), "CCSPlayerController.CCSPlayerController_InventoryServices.m_nPersonaDataPublicCommendsLeader".to_string()));
    t.push(("teacher_honors".to_string(), "CCSPlayerController.CCSPlayerController_InventoryServices.m_nPersonaDataPublicCommendsTeacher".to_string()));
    t.push(("friendly_honors".to_string(), "CCSPlayerController.CCSPlayerController_InventoryServices.m_nPersonaDataPublicCommendsFriendly".to_string()));
    t.push(("kills_this_round".to_string(), "CCSPlayerController.CCSPlayerController_ActionTrackingServices.CSPerRoundStats_t.m_iKills".to_string()));
    proof {
        assert(table_view(t@) =~= table_view(old(t)@) + alias_chunk_8());
    }
}

/// Entries 90 to 99 of the alias table.
pub open spec fn alias_chunk_9() -> AliasTable {
    seq![
        ("deaths_this_round"@, "CCSPlayerController.CCSPlayerController_ActionTrackingServices.CSPerRoundStats_t.m_iDeaths"@),
        ("assists_this_round"@, "CCSPlayerController.CCSPlayerController_ActionTrackingServices.CSPerRoundStats_t.m_iAssists"@),
        ("alive_time_this_round"@, "CCSPlayerController.CCSPlayerController_ActionTrackingServices.CSPerRoundStats_t.m_iLiveTime"@),
        ("headshot_kills_this_round"@, "CCSPlayerController.CCSPlayerController_ActionTrackingServices.CSPerRoundStats_t.m_iHeadShotKills"@),
        ("damage_this_round"@, "CCSPlayerController.CCSPlayerController_ActionTrackingServices.CSPerRoundStats_t.m_iDamage"@),
        ("objective_this_round"@, "CCSPlayerController.CCSPlayerController_ActionTrackingServices.CSPerRoundStats_t.m_iObjective"@),
        ("utility_damage_this_round"@, "CCSPlayerController.CCSPlayerController_ActionTrackingServices.CSPerRoundStats_t.m_iUtilityDamage"@),
        ("enemies_flashed_this_round"@, "CCSPlayerController.CCSPlayerController_ActionTrackingServices.CSPerRoundStats_t.m_iEnemiesFlashed"@),
        ("equipment_value_this_round"@, "CCSPlayerController.CCSPlayerController_ActionTrackingServices.CSPerRoundStats_t.m_iEquipmentValue"@),
        ("money_saved_this_round"@, "CCSPlayerController.CCSPlayerController_ActionTrackingServices.CSPerRoundStats_t.m_iMoneySaved"@),
    ]
}

/// Appends entries 90 to 99 of the alias table.
fn push_alias_chunk_9(t: &mut Vec<(String, String)>)
    ensures
        table_view(final(t)@) == table_view(old(t)@) + alias_chunk_9(),
{
    proof {
        broadcast use vstd::string::to_string_from_display_ensures_for_str;
    }
    t.push(("deaths_this_round".to_string(), "CCSPlayerController.CCSPlayerController_ActionTrackingServices.CSPerRoundStats_t.m_iDeaths".to_string()));
    t.push(("assists_this_round".to_string(), "CCSPlayerController.CCSPlayerController_ActionTrackingServices.CSPerRoundStats_t.m_iAssists".to_string()));
    t.push(("alive_time_this_round".to_string(), "CCSPlayerController.CCSPlayerController_ActionTrackingServices.CSPerRoundStats_t.m_iLiveTime".to_string()));
    t.push(("headshot_kills_this_round".to_string(), "CCSPlayerController.CCSPlayerController_ActionTrackingServices.CSPerRoundStats_t.m_iHeadShotKills".to_string()));
    t.push(("damage_this_round".to_string(), "CCSPlayerController.CCSPlayerController_ActionTrackingServices.CSPerRoundStats_t.m_iDamage".to_string()));
    t.push(("objective_this_round".to_string(), "CCSPlayerController.CCSPlayerController_ActionTrackingServices.CSPerRoundStats_t.m_iObjective".to_string()));
    t.push(("utility_damage_this_round".to_string(), "CCSPlayerController.CCSPlayerController_ActionTrackingServices.CSPerRoundStats_t.m_iUtilityDamage".to_string()));
    t.push(("enemies_flashed_this_round".to_string(), "CCSPlayerController.CCSPlayerController_ActionTrackingServices.CSPerRoundStats_t.m_iEnemiesFlashed".to_string()));
    t.push(("equipment_value_this_round".to_string(), "CCSPlayerController.CCSPlayerController_ActionTrackingServices.CSPerRoundStats_t.m_iEquipmentValue".to_string()));
    t.push(("money_saved_this_round".to_string(), "CCSPlayerController.CCSPlayerController_ActionTrackingServices.CSPerRoundStats_t.m_iMoneySaved".to_string()));
    proof {
        assert(table_view(t@) =~= table_view(old(t)@) + alias_chunk_9());
    }
}

/// Entries 100 to 109 of the alias table.
pub open spec fn alias_chunk_10() -> AliasTable {
    seq![
        ("kill_reward_this_round"@, "CCSPlayerController.CCSPlayerController_ActionTrackingServices.CSPerRoundStats_t.m_iKillReward"@),
        ("cash_earned_this_round"@, "CCSPlayerController.CCSPlayerController_ActionTrackingServices.CSPerRoundStats_t.m_iCashEarned"@),
        ("kills_total"@, "CCSPlayerController.CCSPlayerController_ActionTrackingServices.m_iKills"@),
        ("deaths_total"@, "CCSPlayerController.CCSPlayerController_ActionTrackingServices.m_iDeaths"@),
        ("assists_total"@, "CCSPlayerController.CCSPlayerController_ActionTrackingServices.m_iAssists"@),
        ("alive_time_total"@, "CCSPlayerController.CCSPlayerController_ActionTrackingServices.m_iLiveTime"@),
        ("headshot_kills_total"@, "CCSPlayerController.CCSPlayerController_ActionTrackingServices.m_iHeadShotKills"@),
        ("ace_rounds_total"@, "CCSPlayerController.CCSPlayerController_ActionTrackingServices.m_iEnemy5Ks"@),
        ("4k_rounds_total"@, "CCSPlayerController.CCSPlayerController_ActionTrackingServices.m_iEnemy4Ks"@),
        ("3k_rounds_total"@, "CCSPlayerController.CCSPlayerController_ActionTrackingServices.m_iEnemy3Ks"@),
    ]
}

/// Appends entries 100 to 109 of the alias table.
fn push_alias_chunk_10(t: &mut Vec<(String, String)>)
    ensures
        table_view(final(t)@) == table_view(old(t)@) + alias_chunk_10(),
{
    proof {
        broadcast use vstd::string::to_string_from_display_ensures_for_str;
    }
    t.push(("kill_reward_this_round".to_string(), "CCSPlayerController.CCSPlayerController_ActionTrackingServices.CSPerRoundStats_t.m_iKillReward".to_string()));
    t.push(("cash_earned_this_round".to_string(), "CCSPlayerController.CCSPlayerController_ActionTrackingServices.CSPerRoundStats_t.m_iCashEarned".to_string()));
    t.push(("kills_total".to_string(), "CCSPlayerController.CCSPlayerController_ActionTrackingServices.m_iKills".to_string()));
    t.push(("deaths_total".to_string(), "CCSPlayerController.CCSPlayerController_ActionTrackingServices.m_iDeaths".to_string()));
    t.push(("assists_total".to_string(), "CCSPlayerController.CCSPlayerController_ActionTrackingServices.m_iAssists".to_string()));
    t.push(("alive_time_total".to_string(), "CCSPlayerController.CCSPlayerController_ActionTrackingServices.m_iLiveTime".to_string()));
    t.push(("headshot_kills_total".to_string(), "CCSPlayerController.CCSPlayerController_ActionTrackingServices.m_iHeadShotKills".to_string()));
    t.push(("ace_rounds_total".to_string(), "CCSPlayerController.CCSPlayerController_ActionTrackingServices.m_iEnemy5Ks".to_string()));
    t.push(("4k_rounds_total".to_string(), "CCSPlayerController.CCSPlayerController_ActionTrackingServices.m_iEnemy4Ks".to_string()));
    t.push(("3k_rounds_total".to_string(), "CCSPlayerController.CCSPlayerController_ActionTrackingServices.m_iEnemy3Ks".to_string()));
    proof {
        assert(table_view(t@) =~= table_view(old(t)@) + alias_chunk_10());
    }
}

/// Entries 110 to 119 of the alias table.
pub open spec fn alias_chunk_11() -> AliasTable {
    seq![
        ("damage_total"@, "CCSPlayerController.CCSPlayerController_ActionTrackingServices.m_iDamage"@),
        ("objective_total"@, "CCSPlayerController.CCSPlayerController_ActionTrackingServices.m_iObjective"@),
        ("utility_damage_total"@, "CCSPlayerController.CCSPlayerController_ActionTrackingServices.m_iUtilityDamage"@),
        ("enemies_flashed_total"@, "CCSPlayerController.CCSPlayerController_ActionTrackingServices.m_iEnemiesFlashed"@),
        ("equipment_value_total"@, "CCSPlayerController.CCSPlayerController_ActionTrackingServices.m_iEquipmentValue"@),
        ("money_saved_total"@, "CCSPlayerController.CCSPlayerController_ActionTrackingServices.m_iMoneySaved"@),
        ("kill_reward_total"@, "CCSPlayerController.CCSPlayerController_ActionTrackingServices.m_iKillReward"@),
        ("cash_earned_total"@, "CCSPlayerController.CCSPlayerController_ActionTrackingServices.m_iCashEarned"@),
        ("ping"@, "CCSPlayerController.m_iPing"@),
        ("move_collide"@, "CCSPlayerPawn.m_MoveCollide"@),
    ]
}

/// Appends entries 110 to 119 of the alias table.
fn push_alias_chunk_11(t: &mut Vec<(String, String)>)
    ensures
        table_view(final(t)@) == table_view(old(t)@) + alias_chunk_11(),
{
    proof {
        broadcast use vstd::string::to_string_from_display_ensures_for_str;
    }
    t.push(("damage_total".to_string(), "CCSPlayerController.CCSPlayerController_ActionTrackingServices.m_iDamage".to_string()));
    t.push(("objective_total".to_string(), "CCSPlayerController.CCSPlayerController_ActionTrackingServices.m_iObjective".to_string()));
    t.push(("utility_damage_total".to_string(), "CCSPlayerController.CCSPlayerController_ActionTrackingServices.m_iUtilityDamage".to_string()));
    t.push(("enemies_flashed_total".to_string(), "CCSPlayerController.CCSPlayerController_ActionTrackingServices.m_iEnemiesFlashed".to_string()));
    t.push(("equipment_value_total".to_string(), "CCSPlayerController.CCSPlayerController_ActionTrackingServices.m_iEquipmentValue".to_string()));
    t.push(("money_saved_total".to_string(), "CCSPlayerController.CCSPlayerController_ActionTrackingServices.m_iMoneySaved".to_string()));
    t.push(("kill_reward_total".to_string(), "CCSPlayerController.CCSPlayerController_ActionTrackingServices.m_iKillReward".to_string()));
    t.push(("cash_earned_total".to_string(), "CCSPlayerController.CCSPlayerController_ActionTrackingServices.m_iCashEarned".to_string()));
    t.push(("ping".to_string(), "CCSPlayerController.m_iPing".to_string()));
    t.push(("move_collide".to_string(), "CCSPlayerPawn.m_MoveCollide".to_string()));
    proof {
        assert(table_view(t@) =~= table_view(old(t)@) + alias_chunk_11());
    }
}

/// Entries 120 to 129 of the alias table.
pub open spec fn alias_chunk_12() -> AliasTable {
    seq![
        ("move_type"@, "CCSPlayerPawn.m_MoveType"@),
        ("team_num"@, "CCSPlayerPawn.m_iTeamNum"@),
        ("active_weapon"@, "CCSPlayerPawn.CCSPlayer_WeaponServices.m_hActiveWeapon"@),
        ("looking_at_weapon"@, "CCSPlayerPawn.CCSPlayer_WeaponServices.m_bIsLookingAtWeapon"@),
        ("holding_look_at_weapon"@, "CCSPlayerPawn.CCSPlayer_WeaponServices.m_bIsHoldingLookAtWeapon"@),
        ("next_attack_time"@, "CCSPlayerPawn.CCSPlayer_WeaponServices.m_flNextAttack"@),
        ("duck_time_ms"@, "CCSPlayerPawn.CCSPlayer_MovementServices.m_nDuckTimeMsecs"@),
        ("max_speed"@, "CCSPlayerPawn.CCSPlayer_MovementServices.m_flMaxspeed"@),
        ("max_fall_velo"@, "CCSPlayerPawn.CCSPlayer_MovementServices.m_flMaxFallVelocity"@),
        ("duck_amount"@, "CCSPlayerPawn.CCSPlayer_MovementServices.m_flDuckAmount"@),
    ]
}

/// Appends entries 120 to 129 of the alias table.
fn push_alias_chunk_12(t: &mut Vec<(String, String)>)
    ensures
        table_view(final(t)@) == table_view(old(t)@) + alias_chunk_12(),
{
    proof {
        broadcast use vstd::string::to_string_from_display_ensures_for_str;
    }
    t.push(("move_type".to_string(), "CCSPlayerPawn.m_MoveType".to_string()));
    t.push(("team_num".to_string(), "CCSPlayerPawn.m_iTeamNum".to_string()));
    t.push(("active_weapon".to_string(), "CCSPlayerPawn.CCSPlayer_WeaponServices.m_hActiveWeapon".to_string()));
    t.push(("looking_at_weapon".to_string(), "CCSPlayerPawn.CCSPlayer_WeaponServices.m_bIsLookingAtWeapon".to_string()));
    t.push(("holding_look_at_weapon".to_string(), "CCSPlayerPawn.CCSPlayer_WeaponServices.m_bIsHoldingLookAtWeapon".to_string()));
    t.push(("next_attack_time".to_string(), "CCSPlayerPawn.CCSPlayer_WeaponServices.m_flNextAttack".to_string()));
    t.push(("duck_time_ms".to_string(), "CCSPlayerPawn.CCSPlayer_MovementServices.m_nDuckTimeMsecs".to_string()));
    t.push(("max_speed".to_string(), "CCSPlayerPawn.CCSPlayer_MovementServices.m_flMaxspeed".to_string()));
    t.push(("max_fall_velo".to_string(), "CCSPlayerPawn.CCSPlayer_MovementServices.m_flMaxFallVelocity".to_string()));
    t.push(("duck_amount".to_string(), "CCSPlayerPawn.CCSPlayer_MovementServices.m_flDuckAmount".to_string()));
    proof {
        assert(table_view(t@) =~= table_view(old(t)@) + alias_chunk_12());
    }
}

/// Entries 130 to 139 of the alias table.
pub open spec fn alias_chunk_13() -> AliasTable {
    seq![
        ("duck_speed"@, "CCSPlayerPawn.CCSPlayer_MovementServices.m_flDuckSpeed"@),
        ("duck_overrdie"@, "CCSPlayerPawn.CCSPlayer_MovementServices.m_bDuckOverride"@),
        ("old_jump_pressed"@, "CCSPlayerPawn.CCSPlayer_MovementServices.m_bOldJumpPressed"@),
        ("jump_until"@, "CCSPlayerPawn.CCSPlayer_MovementServices.m_flJumpUntil"@),
        ("jump_velo"@, "CCSPlayerPawn.CCSPlayer_MovementServices.m_flJumpVel"@),
        ("fall_velo"@, "CCSPlayerPawn.CCSPlayer_MovementServices.m_flFallVelocity"@),
        ("in_crouch"@, "CCSPlayerPawn.CCSPlayer_MovementServices.m_bInCrouch"@),
        ("crouch_state"@, "CCSPlayerPawn.CCSPlayer_MovementServices.m_nCrouchState"@),
        ("ducked"@, "CCSPlayerPawn.CCSPlayer_MovementServices.m_bDucked"@),
        ("ducking"@, "CCSPlayerPawn.CCSPlayer_MovementServices.m_bDucking"@),
    ]
}

/// Appends entries 130 to 139 of the alias table.
fn push_alias_chunk_13(t: &mut Vec<(String, String)>)
    ensures
        table_view(final(t)@) == table_view(old(t)@) + alias_chunk_13(),
{
    proof {
        broadcast use vstd::string::to_string_from_display_ensures_for_str;
    }
    t.push(("duck_speed".to_string(), "CCSPlayerPawn.CCSPlayer_MovementServices.m_flDuckSpeed".to_string()));
    t.push(("duck_overrdie".to_string(), "CCSPlayerPawn.CCSPlayer_MovementServices.m_bDuckOverride".to_string()));
    t.push(("old_jump_pressed".to_string(), "CCSPlayerPawn.CCSPlayer_MovementServices.m_bOldJumpPressed".to_string()));
    t.push(("jump_until".to_string(), "CCSPlayerPawn.CCSPlayer_MovementServices.m_flJumpUntil".to_string()));
    t.push(("jump_velo".to_string(), "CCSPlayerPawn.CCSPlayer_MovementServices.m_flJumpVel".to_string()));
    t.push(("fall_velo".to_string(), "CCSPlayerPawn.CCSPlayer_MovementServices.m_flFallVelocity".to_string()));
    t.push(("in_crouch".to_string(), "CCSPlayerPawn.CCSPlayer_MovementServices.m_bInCrouch".to_string()));
    t.push(("crouch_state".to_string(), "CCSPlayerPawn.CCSPlayer_MovementServices.m_nCrouchState".to_string()));
    t.push(("ducked".to_string(), "CCSPlayerPawn.CCSPlayer_MovementServices.m_bDucked".to_string()));
    t.push(("ducking".to_string(), "CCSPlayerPawn.CCSPlayer_MovementServices.m_bDucking".to_string()));
    proof {
        assert(table_view(t@) =~= table_view(old(t)@) + alias_chunk_13());
    }
}

/// Entries 140 to 149 of the alias table.
pub open spec fn alias_chunk_14() -> AliasTable {
    seq![
        ("in_duck_jump"@, "CCSPlayerPawn.CCSPlayer_MovementServices.m_bInDuckJump"@),
        ("allow_auto_movement"@, "CCSPlayerPawn.CCSPlayer_MovementServices.m_bAllowAutoMovement"@),
        ("jump_time_ms"@, "CCSPlayerPawn.CCSPlayer_MovementServices.m_nJumpTimeMsecs"@),
        ("last_duck_time"@, "CCSPlayerPawn.CCSPlayer_MovementServices.m_flLastDuckTime"@),
        ("is_rescuing"@, "CCSPlayerPawn.CCSPlayer_ActionTrackingServices.m_bIsRescuing"@),
        ("weapon_purchases_this_match"@, "CCSPlayerPawn.CCSPlayer_ActionTrackingServices.m_iWeaponPurchasesThisMatch"@),
        ("weapon_purchases_this_round"@, "CCSPlayerPawn.CCSPlayer_ActionTrackingServices.m_iWeaponPurchasesThisRound"@),
        ("spotted"@, "CCSPlayerPawn.m_bSpotted"@),
        ("spotted_mask"@, "CCSPlayerPawn.m_bSpottedByMask"@),
        ("time_last_injury"@, "CCSPlayerPawn.m_flTimeOfLastInjury"@),
    ]
}

/// Appends entries 140 to 149 of the alias table.
fn push_alias_chunk_14(t: &mut Vec<(String, String)>)
    ensures
        table_view(final(t)@) == table_view(old(t)@) + alias_chunk_14(),
{
    proof {
        broadcast use vstd::string::to_string_from_display_ensures_for_str;
    }
    t.push(("in_duck_jump".to_string(), "CCSPlayerPawn.CCSPlayer_MovementServices.m_bInDuckJump".to_string()));
    t.push(("allow_auto_movement".to_string(), "CCSPlayerPawn.CCSPlayer_MovementServices.m_bAllowAutoMovement".to_string()));
    t.push(("jump_time_ms".to_string(), "CCSPlayerPawn.CCSPlayer_MovementServices.m_nJumpTimeMsecs".to_string()));
    t.push(("last_duck_time".to_string(), "CCSPlayerPawn.CCSPlayer_MovementServices.m_flLastDuckTime".to_string()));
    t.push(("is_rescuing".to_string(), "CCSPlayerPawn.CCSPlayer_ActionTrackingServices.m_bIsRescuing".to_string()));
    t.push(("weapon_purchases_this_match".to_string(), "CCSPlayerPawn.CCSPlayer_ActionTrackingServices.m_iWeaponPurchasesThisMatch".to_string()));
    t.push(("weapon_purchases_this_round".to_string(), "CCSPlayerPawn.CCSPlayer_ActionTrackingServices.m_iWeaponPurchasesThisRound".to_string()));
    t.push(("spotted".to_string(), "CCSPlayerPawn.m_bSpotted".to_string()));
    t.push(("spotted_mask".to_string(), "CCSPlayerPawn.m_bSpottedByMask".to_string()));
    t.push(("time_last_injury".to_string(), "CCSPlayerPawn.m_flTimeOfLastInjury".to_string()));
    proof {
        assert(table_view(t@) =~= table_view(old(t)@) + alias_chunk_14());
    }
}

/// Entries 150 to 159 of the alias table.
pub open spec fn alias_chunk_15() -> AliasTable {
    seq![
        ("direction_last_injury"@, "CCSPlayerPawn.m_nRelativeDirectionOfLastInjury"@),
        ("player_state"@, "CCSPlayerPawn.m_iPlayerState"@),
        ("passive_items"@, "CCSPlayerPawn.m_passiveItems"@),
        ("is_scoped"@, "CCSPlayerPawn.m_bIsScoped"@),
        ("is_walking"@, "CCSPlayerPawn.m_bIsWalking"@),
        ("resume_zoom"@, "CCSPlayerPawn.m_bResumeZoom"@),
        ("is_defusing"@, "CCSPlayerPawn.m_bIsDefusing"@),
        ("is_grabbing_hostage"@, "CCSPlayerPawn.m_bIsGrabbingHostage"@),
        ("blocking_use_in_progess"@, "CCSPlayerPawn.m_iBlockingUseActionInProgress"@),
        ("molotov_damage_time"@, "CCSPlayerPawn.m_fMolotovDamageTime"@),
    ]
}

/// Appends entries 150 to 159 of the alias table.
fn push_alias_chunk_15(t: &mut Vec<(String, String)>)
    ensures
        table_view(final(t)@) == table_view(old(t)@) + alias_chunk_15(),
{
    proof {
        broadcast use vstd::string::to_string_from_display_ensures_for_str;
    }
    t.push(("direction_last_injury".to_string(), "CCSPlayerPawn.m_nRelativeDirectionOfLastInjury".to_string()));
    t.push(("player_state".to_string(), "CCSPlayerPawn.m_iPlayerState".to_string()));
    t.push(("passive_items".to_string(), "CCSPlayerPawn.m_passiveItems".to_string()));
    t.push(("is_scoped".to_string(), "CCSPlayerPawn.m_bIsScoped".to_string()));
    t.push(("is_walking".to_string(), "CCSPlayerPawn.m_bIsWalking".to_string()));
    t.push(("resume_zoom".to_string(), "CCSPlayerPawn.m_bResumeZoom".to_string()));
    t.push(("is_defusing".to_string(), "CCSPlayerPawn.m_bIsDefusing".to_string()));
    t.push(("is_grabbing_hostage".to_string(), "CCSPlayerPawn.m_bIsGrabbingHostage".to_string()));
    t.push(("blocking_use_in_progess".to_string(), "CCSPlayerPawn.m_iBlockingUseActionInProgress".to_string()));
    t.push(("molotov_damage_time".to_string(), "CCSPlayerPawn.m_fMolotovDamageTime".to_string()));
    proof {
        assert(table_view(t@) =~= table_view(old(t)@) + alias_chunk_15());
    }
}

/// Entries 160 to 169 of the alias table.
pub open spec fn alias_chunk_16() -> AliasTable {
    seq![
        ("moved_since_spawn"@, "CCSPlayerPawn.m_bHasMovedSinceSpawn"@),
        ("in_bomb_zone"@, "CCSPlayerPawn.m_bInBombZone"@),
        ("in_buy_zone"@, "CCSPlayerPawn.m_bInBuyZone"@),
        ("in_no_defuse_area"@, "CCSPlayerPawn.m_bInNoDefuseArea"@),
        ("killed_by_taser"@, "CCSPlayerPawn.m_bKilledByTaser"@),
        ("move_state"@, "CCSPlayerPawn.m_iMoveState"@),
        ("which_bomb_zone"@, "CCSPlayerPawn.m_nWhichBombZone"@),
        ("in_hostage_rescue_zone"@, "CCSPlayerPawn.m_bInHostageRescueZone"@),
        ("stamina"@, "CCSPlayerPawn.m_flStamina"@),
        ("direction"@, "CCSPlayerPawn.m_iDirection"@),
    ]
}

/// Appends entries 160 to 169 of the alias table.
fn push_alias_chunk_16(t: &mut Vec<(String, String)>)
    ensures
        table_view(final(t)@) == table_view(old(t)@) + alias_chunk_16(),
{
    proof {
        broadcast use vstd::string::to_string_from_display_ensures_for_str;
    }
    t.push(("moved_since_spawn".to_string(), "CCSPlayerPawn.m_bHasMovedSinceSpawn".to_string()));
    t.push(("in_bomb_zone".to_string(), "CCSPlayerPawn.m_bInBombZone".to_string()));
    t.push(("in_buy_zone".to_string(), "CCSPlayerPawn.m_bInBuyZone".to_string()));
    t.push(("in_no_defuse_area".to_string(), "CCSPlayerPawn.m_bInNoDefuseArea".to_string()));
    t.push(("killed_by_taser".to_string(), "CCSPlayerPawn.m_bKilledByTaser".to_string()));
    t.push(("move_state".to_string(), "CCSPlayerPawn.m_iMoveState".to_string()));
    t.push(("which_bomb_zone".to_string(), "CCSPlayerPawn.m_nWhichBombZone".to_string()));
    t.push(("in_hostage_rescue_zone".to_string(), "CCSPlayerPawn.m_bInHostageRescueZone".to_string()));
    t.push(("stamina".to_string(), "CCSPlayerPawn.m_flStamina".to_string()));
    t.push(("direction".to_string(), "CCSPlayerPawn.m_iDirection".to_string()));
    proof {
        assert(table_view(t@) =~= table_view(old(t)@) + alias_chunk_16());
    }
}

/// Entries 170 to 179 of the alias table.
pub open spec fn alias_chunk_17() -> AliasTable {
    seq![
        ("shots_fired"@, "CCSPlayerPawn.m_iShotsFired"@),
        ("armor_value"@, "CCSPlayerPawn.m_ArmorValue"@),
        ("velo_modifier"@, "CCSPlayerPawn.m_flVelocityModifier"@),
        ("ground_accel_linear_frac_last_time"@, "CCSPlayerPawn.m_flGroundAccelLinearFracLastTime"@),
        ("flash_duration"@, "CCSPlayerPawn.m_flFlashDuration"@),
        ("flash_max_alpha"@, "CCSPlayerPawn.m_flFlashMaxAlpha"@),
        ("wait_for_no_attack"@, "CCSPlayerPawn.m_bWaitForNoAttack"@),
        ("last_place_name"@, "CCSPlayerPawn.m_szLastPlaceName"@),
        ("is_strafing"@, "CCSPlayerPawn.m_bStrafing"@),
        ("round_start_equip_value"@, "CCSPlayerPawn.m_unRoundStartEquipmentValue"@),
    ]
}

/// Appends entries 170 to 179 of the alias table.
fn push_alias_chunk_17(t: &mut Vec<(String, String)>)
    ensures
        table_view(final(t)@) == table_view(old(t)@) + alias_chunk_17(),
{
    proof {
        broadcast use vstd::string::to_string_from_display_ensures_for_str;
    }
    t.push(("shots_fired".to_string(), "CCSPlayerPawn.m_iShotsFired".to_string()));
    t.push(("armor_value".to_string(), "CCSPlayerPawn.m_ArmorValue".to_string()));
    t.push(("velo_modifier".to_string(), "CCSPlayerPawn.m_flVelocityModifier".to_string()));
    t.push(("ground_accel_linear_frac_last_time".to_string(), "CCSPlayerPawn.m_flGroundAccelLinearFracLastTime".to_string()));
    t.push(("flash_duration".to_string(), "CCSPlayerPawn.m_flFlashDuration".to_string()));
    t.push(("flash_max_alpha".to_string(), "CCSPlayerPawn.m_flFlashMaxAlpha".to_string()));
    t.push(("wait_for_no_attack".to_string(), "CCSPlayerPawn.m_bWaitForNoAttack".to_string()));
    t.push(("last_place_name".to_string(), "CCSPlayerPawn.m_szLastPlaceName".to_string()));
    t.push(("is_strafing".to_string(), "CCSPlayerPawn.m_bStrafing".to_string()));
    t.push(("round_start_equip_value".to_string(), "CCSPlayerPawn.m_unRoundStartEquipmentValue".to_string()));
    proof {
        assert(table_view(t@) =~= table_view(old(t)@) + alias_chunk_17());
    }
}

/// Entries 180 to 189 of the alias table.
pub open spec fn alias_chunk_18() -> AliasTable {
    seq![
        ("current_equip_value"@, "CCSPlayerPawn.m_unCurrentEquipmentValue"@),
        ("time"@, "CCSPlayerPawn.m_flSimulationTime"@),
        ("health"@, "CCSPlayerPawn.m_iHealth"@),
        ("life_state"@, "CCSPlayerPawn.m_lifeState"@),
        ("X"@, "X"@),
        ("Y"@, "Y"@),
        ("Z"@, "Z"@),
        ("pitch"@, "CCSPlayerPawnBase.m_angEyeAngles@0"@),
        ("yaw"@, "CCSPlayerPawnBase.m_angEyeAngles@1"@),
        ("active_weapon_name"@, "weapon_name"@),
    ]
}

/// Appends entries 180 to 189 of the alias table.
fn push_alias_chunk_18(t: &mut Vec<(String, String)>)
    ensures
        table_view(final(t)@) == table_view(old(t)@) + alias_chunk_18(),
{
    proof {
        broadcast use vstd::string::to_string_from_display_ensures_for_str;
    }
    t.push(("current_equip_value".to_string(), "CCSPlayerPawn.m_unCurrentEquipmentValue".to_string()));
    t.push(("time".to_string(), "CCSPlayerPawn.m_flSimulationTime".to_string()));
    t.push(("health".to_string(), "CCSPlayerPawn.m_iHealth".to_string()));
    t.push(("life_state".to_string(), "CCSPlayerPawn.m_lifeState".to_string()));
    t.push(("X".to_string(), "X".to_string()));
    t.push(("Y".to_string(), "Y".to_string()));
    t.push(("Z".to_string(), "Z".to_string()));
    t.push(("pitch".to_string(), "CCSPlayerPawnBase.m_angEyeAngles@0".to_string()));
    t.push(("yaw".to_string(), "CCSPlayerPawnBase.m_angEyeAngles@1".to_string()));
    t.push(("active_weapon_name".to_string(), "weapon_name".to_string()));
    proof {
        assert(table_view(t@) =~= table_view(old(t)@) + alias_chunk_18());
    }
}

/// Entries 190 to 199 of the alias table.
pub open spec fn alias_chunk_19() -> AliasTable {
    seq![
        ("active_weapon_ammo"@, "m_iClip1"@),
        ("total_ammo_left"@, "m_pReserveAmmo"@),
        ("item_def_idx"@, "m_iItemDefinitionIndex"@),
        ("weapon_quality"@, "m_iEntityQuality"@),
        ("entity_lvl"@, "m_iEntityLevel"@),
        ("item_id_high"@, "m_iItemIDHigh"@),
        ("item_id_low"@, "m_iItemIDLow"@),
        ("item_account_id"@, "m_iAccountID"@),
        ("inventory_position"@, "m_iInventoryPosition"@),
        ("is_initialized"@, "m_bInitialized"@),
    ]
}

/// Appends entries 190 to 199 of the alias table.
fn push_alias_chunk_19(t: &mut Vec<(String, String)>)
    ensures
        table_view(final(t)@) == table_view(old(t)@) + alias_chunk_19(),
{
    proof {
        broadcast use vstd::string::to_string_from_display_ensures_for_str;
    }
    t.push(("active_weapon_ammo".to_string(), "m_iClip1".to_string()));
    t.push(("total_ammo_left".to_string(), "m_pReserveAmmo".to_string()));
    t.push(("item_def_idx".to_string(), "m_iItemDefinitionIndex".to_string()));
    t.push(("weapon_quality".to_string(), "m_iEntityQuality".to_string()));
    t.push(("entity_lvl".to_string(), "m_iEntityLevel".to_string()));
    t.push(("item_id_high".to_string(), "m_iItemIDHigh".to_string()));
    t.push(("item_id_low".to_string(), "m_iItemIDLow".to_string()));
    t.push(("item_account_id".to_string(), "m_iAccountID".to_string()));
    t.push(("inventory_position".to_string(), "m_iInventoryPosition".to_string()));
    t.push(("is_initialized".to_string(), "m_bInitialized".to_string()));
    proof {
        assert(table_view(t@) =~= table_view(old(t)@) + alias_chunk_19());
    }
}

/// Entries 200 to 209 of the alias table.
pub open spec fn alias_chunk_20() -> AliasTable {
    seq![
        ("econ_item_attribute_def_idx"@, "CEconItemAttribute.m_iAttributeDefinitionIndex"@),
        ("econ_raw_val_32"@, "CEconItemAttribute.m_iRawValue32"@),
        ("initial_value"@, "CEconItemAttribute.m_flInitialValue"@),
        ("refundable_currency"@, "CEconItemAttribute.m_nRefundableCurrency"@),
        ("set_bonus"@, "CEconItemAttribute.m_bSetBonus"@),
        ("custom_name"@, "m_szCustomName"@),
        ("orig_owner_xuid_low"@, "m_OriginalOwnerXuidLow"@),
        ("orig_owner_xuid_high"@, "m_OriginalOwnerXuidHigh"@),
        ("fall_back_paint_kit"@, "m_nFallbackPaintKit"@),
        ("fall_back_seed"@, "m_nFallbackSeed"@),
    ]
}

/// Appends entries 200 to 209 of the alias table.
fn push_alias_chunk_20(t: &mut Vec<(String, String)>)
    ensures
        table_view(final(t)@) == table_view(old(t)@) + alias_chunk_20(),
{
    proof {
        broadcast use vstd::string::to_string_from_display_ensures_for_str;
    }
    t.push(("econ_item_attribute_def_idx".to_string(), "CEconItemAttribute.m_iAttributeDefinitionIndex".to_string()));
    t.push(("econ_raw_val_32".to_string(), "CEconItemAttribute.m_iRawValue32".to_string()));
    t.push(("initial_value".to_string(), "CEconItemAttribute.m_flInitialValue".to_string()));
    t.push(("refundable_currency".to_string(), "CEconItemAttribute.m_nRefundableCurrency".to_string()));
    t.push(("set_bonus".to_string(), "CEconItemAttribute.m_bSetBonus".to_string()));
    t.push(("custom_name".to_string(), "m_szCustomName".to_string()));
    t.push(("orig_owner_xuid_low".to_string(), "m_OriginalOwnerXuidLow".to_string()));
    t.push(("orig_owner_xuid_high".to_string(), "m_OriginalOwnerXuidHigh".to_string()));
    t.push(("fall_back_paint_kit".to_string(), "m_nFallbackPaintKit".to_string()));
    t.push(("fall_back_seed".to_string(), "m_nFallbackSeed".to_string()));
    proof {
        assert(table_view(t@) =~= table_view(old(t)@) + alias_chunk_20());
    }
}

/// Entries 210 to 219 of the alias table.
pub open spec fn alias_chunk_21() -> AliasTable {
    seq![
        ("fall_back_wear"@, "m_flFallbackWear"@),
        ("fall_back_stat_track"@, "m_nFallbackStatTrak"@),
        ("m_iState"@, "m_iState"@),
        ("fire_seq_start_time"@, "m_flFireSequenceStartTime"@),
        ("fire_seq_start_time_change"@, "m_nFireSequenceStartTimeChange"@),
        ("is_player_fire_event_primary"@, "m_bPlayerFireEventIsPrimary"@),
        ("weapon_mode"@, "m_weaponMode"@),
        ("accuracy_penalty"@, "m_fAccuracyPenalty"@),
        ("i_recoil_idx"@, "m_iRecoilIndex"@),
        ("fl_recoil_idx"@, "m_flRecoilIndex"@),
    ]
}

/// Appends entries 210 to 219 of the alias table.
fn push_alias_chunk_21(t: &mut Vec<(String, String)>)
    ensures
        table_view(final(t)@) == table_view(old(t)@) + alias_chunk_21(),
{
    proof {
        broadcast use vstd::string::to_string_from_display_ensures_for_str;
    }
    t.push(("fall_back_wear".to_string(), "m_flFallbackWear".to_string()));
    t.push(("fall_back_stat_track".to_string(), "m_nFallbackStatTrak".to_string()));
    t.push(("m_iState".to_string(), "m_iState".to_string()));
    t.push(("fire_seq_start_time".to_string(), "m_flFireSequenceStartTime".to_string()));
    t.push(("fire_seq_start_time_change".to_string(), "m_nFireSequenceStartTimeChange".to_string()));
    t.push(("is_player_fire_event_primary".to_string(), "m_bPlayerFireEventIsPrimary".to_string()));
    t.push(("weapon_mode".to_string(), "m_weaponMode".to_string()));
    t.push(("accuracy_penalty".to_string(), "m_fAccuracyPenalty".to_string()));
    t.push(("i_recoil_idx".to_string(), "m_iRecoilIndex".to_string()));
    t.push(("fl_recoil_idx".to_string(), "m_flRecoilIndex".to_string()));
    proof {
        assert(table_view(t@) =~= table_view(old(t)@) + alias_chunk_21());
    }
}

/// Entries 220 to 229 of the alias table.
pub open spec fn alias_chunk_22() -> AliasTable {
    seq![
        ("is_burst_mode"@, "m_bBurstMode"@),
        ("post_pone_fire_ready_time"@, "m_flPostponeFireReadyTime"@),
        ("is_in_reload"@, "m_bInReload"@),
        ("reload_visually_complete"@, "m_bReloadVisuallyComplete"@),
        ("dropped_at_time"@, "m_flDroppedAtTime"@),
        ("is_hauled_back"@, "m_bIsHauledBack"@),
        ("is_silencer_on"@, "m_bSilencerOn"@),
        ("time_silencer_switch_complete"@, "m_flTimeSilencerSwitchComplete"@),
        ("orig_team_number"@, "m_iOriginalTeamNumber"@),
        ("prev_owner"@, "m_hPrevOwner"@),
    ]
}

/// Appends entries 220 to 229 of the alias table.
fn push_alias_chunk_22(t: &mut Vec<(String, String)>)
    ensures
        table_view(final(t)@) == table_view(old(t)@) + alias_chunk_22(),
{
    proof {
        broadcast use vstd::string::to_string_from_display_ensures_for_str;
    }
    t.push(("is_burst_mode".to_string(), "m_bBurstMode".to_string()));
    t.push(("post_pone_fire_ready_time".to_string(), "m_flPostponeFireReadyTime".to_string()));
    t.push(("is_in_reload".to_string(), "m_bInReload".to_string()));
    t.push(("reload_visually_complete".to_string(), "m_bReloadVisuallyComplete".to_string()));
    t.push(("dropped_at_time".to_string(), "m_flDroppedAtTime".to_string()));
    t.push(("is_hauled_back".to_string(), "m_bIsHauledBack".to_string()));
    t.push(("is_silencer_on".to_string(), "m_bSilencerOn".to_string()));
    t.push(("time_silencer_switch_complete".to_string(), "m_flTimeSilencerSwitchComplete".to_string()));
    t.push(("orig_team_number".to_string(), "m_iOriginalTeamNumber".to_string()));
    t.push(("prev_owner".to_string(), "m_hPrevOwner".to_string()));
    proof {
        assert(table_view(t@) =~= table_view(old(t)@) + alias_chunk_22());
    }
}

/// Entries 230 to 239 of the alias table.
pub open spec fn alias_chunk_23() -> AliasTable {
    seq![
        ("last_shot_time"@, "m_fLastShotTime"@),
        ("iron_sight_mode"@, "m_iIronSightMode"@),
        ("num_empty_attacks"@, "m_iNumEmptyAttacks"@),
        ("zoom_lvl"@, "m_zoomLevel"@),
        ("burst_shots_remaining"@, "m_iBurstShotsRemaining"@),
        ("needs_bolt_action"@, "m_bNeedsBoltAction"@),
        ("next_primary_attack_tick"@, "m_nNextPrimaryAttackTick"@),
        ("next_primary_attack_tick_ratio"@, "m_flNextPrimaryAttackTickRatio"@),
        ("next_secondary_attack_tick"@, "m_nNextSecondaryAttackTick"@),
        ("next_secondary_attack_tick_ratio"@, "m_flNextSecondaryAttackTickRatio"@),
    ]
}

/// Appends entries 230 to 239 of the alias table.
fn push_alias_chunk_23(t: &mut Vec<(String, String)>)
    ensures
        table_view(final(t)@) == table_view(old(t)@) + alias_chunk_23(),
{
    proof {
        broadcast use vstd::string::to_string_from_display_ensures_for_str;
    }
    t.push(("last_shot_time".to_string(), "m_fLastShotTime".to_string()));
    t.push(("iron_sight_mode".to_string(), "m_iIronSightMode".to_string()));
    t.push(("num_empty_attacks".to_string(), "m_iNumEmptyAttacks".to_string()));
    t.push(("zoom_lvl".to_string(), "m_zoomLevel".to_string()));
    t.push(("burst_shots_remaining".to_string(), "m_iBurstShotsRemaining".to_string()));
    t.push(("needs_bolt_action".to_string(), "m_bNeedsBoltAction".to_string()));
    t.push(("next_primary_attack_tick".to_string(), "m_nNextPrimaryAttackTick".to_string()));
    t.push(("next_primary_attack_tick_ratio".to_string(), "m_flNextPrimaryAttackTickRatio".to_string()));
    t.push(("next_secondary_attack_tick".to_string(), "m_nNextSecondaryAttackTick".to_string()));
    t.push(("next_secondary_attack_tick_ratio".to_string(), "m_flNextSecondaryAttackTickRatio".to_string()));
    proof {
        assert(table_view(t@) =~= table_view(old(t)@) + alias_chunk_23());
    }
}

/// Builds the alias table.
pub fn friendly_names_mapping() -> (r: Vec<(String, String)>)
    ensures
        table_view(r@) == friendly_table(),
{
    let mut t: Vec<(String, String)> = Vec::new();
    proof {
        assert(table_view(t@) =~= Seq::<(Seq<char>, Seq<char>)>::empty());
    }
    push_alias_chunk_0(&mut t);
    push_alias_chunk_1(&mut t);
    push_alias_chunk_2(&mut t);
    push_alias_chunk_3(&mut t);
    push_alias_chunk_4(&mut t);
    push_alias_chunk_5(&mut t);
    push_alias_chunk_6(&mut t);
    push_alias_chunk_7(&mut t);
    push_alias_chunk_8(&mut t);
    push_alias_chunk_9(&mut t);
    push_alias_chunk_10(&mut t);
    push_alias_chunk_11(&mut t);
    push_alias_chunk_12(&mut t);
    push_alias_chunk_13(&mut t);
    push_alias_chunk_14(&mut t);
    push_alias_chunk_15(&mut t);
    push_alias_chunk_16(&mut t);
    push_alias_chunk_17(&mut t);
    push_alias_chunk_18(&mut t);
    push_alias_chunk_19(&mut t);
    push_alias_chunk_20(&mut t);
    push_alias_chunk_21(&mut t);
    push_alias_chunk_22(&mut t);
    push_alias_chunk_23(&mut t);
    proof {
        assert(table_view(t@) =~= friendly_table());
    }
    t
}


/// The name that the first entry with this alias gives.
pub fn lookup_alias(table: &Vec<(String, String)>, name: &String) -> (r: Option<String>)
    ensures
        match r {
            Some(v) => alias_lookup(table_view(table@), name@) == Some(v@),
            None => alias_lookup(table_view(table@), name@) is None,
        },
{
    let mut i: usize = 0;
    proof {
        assert(table_view(table@).subrange(0, table@.len() as int) =~= table_view(table@));
    }
    while i < table.len()
        invariant
            i <= table@.len(),
            alias_lookup(table_view(table@), name@) == alias_lookup(
                table_view(table@).subrange(i as int, table@.len() as int),
                name@,
            ),
        decreases table@.len() - i,
    {
        let ghost rest = table_view(table@).subrange(i as int, table@.len() as int);
        proof {
            assert(rest.drop_first() =~= table_view(table@).subrange(i + 1, table@.len() as int));
        }
        if table[i].0 == *name {
            return Some(table[i].1.clone());
        }
        i = i + 1;
    }
    None
}

/// The alias of the first entry with this name.
pub fn reverse_alias(table: &Vec<(String, String)>, path: &String) -> (r: Option<String>)
    ensures
        match r {
            Some(v) => alias_reverse(table_view(table@), path@) == Some(v@),
            None => alias_reverse(table_view(table@), path@) is None,
        },
{
    let mut i: usize = 0;
    proof {
        assert(table_view(table@).subrange(0, table@.len() as int) =~= table_view(table@));
    }
    while i < table.len()
        invariant
            i <= table@.len(),
            alias_reverse(table_view(table@), path@) == alias_reverse(
                table_view(table@).subrange(i as int, table@.len() as int),
                path@,
            ),
        decreases table@.len() - i,
    {
        let ghost rest = table_view(table@).subrange(i as int, table@.len() as int);
        proof {
            assert(rest.drop_first() =~= table_view(table@).subrange(i + 1, table@.len() as int));
        }
        if table[i].1 == *path {
            return Some(table[i].0.clone());
        }
        i = i + 1;
    }
    None
}

/// Whether every name resolves.
pub open spec fn all_resolve(t: AliasTable, names: Seq<String>) -> bool {
    forall|i: int| 0 <= i < names.len() ==> alias_lookup(t, #[trigger] names[i]@) is Some
}

/// Replaces each user-facing name by the property path it stands for; the first name that
/// is not in the alias table is an error.
pub fn rm_user_friendly_names(names: &Vec<String>) -> (r: Result<Vec<String>, DemoParserError>)
    ensures
        all_resolve(friendly_table(), names@) <==> r is Ok,
        r is Ok ==> r->Ok_0@.len() == names@.len() && forall|i: int|
            0 <= i < names@.len() ==> alias_lookup(friendly_table(), #[trigger] names@[i]@)
                == Some(r->Ok_0@[i]@),
        r is Err ==> exists|i: int|
            0 <= i < names@.len() && alias_lookup(friendly_table(), #[trigger] names@[i]@) is None
                && (forall|j: int| 0 <= j < i ==> alias_lookup(friendly_table(), #[trigger] names@[j]@) is Some)
                && r == Err::<Vec<String>, DemoParserError>(
                DemoParserError::UnknownPropName(names@[i]),
            ),
{
    let table = friendly_names_mapping();
    let mut real_names: Vec<String> = Vec::new();
    let mut i: usize = 0;
    while i < names.len()
        invariant
            i <= names@.len(),
            table_view(table@) == friendly_table(),
            real_names@.len() == i,
            forall|k: int|
                0 <= k < i ==> alias_lookup(friendly_table(), #[trigger] names@[k]@) == Some(
                    real_names@[k]@,
                ),
        decreases names@.len() - i,
    {
        match lookup_alias(&table, &names[i]) {
            Some(real_name) => real_names.push(real_name),
            None => {
                proof {
                    assert(!all_resolve(friendly_table(), names@));
                }
                return Err(DemoParserError::UnknownPropName(names[i].clone()));
            },
        }
        i = i + 1;
    }
    Ok(real_names)
}

/// The user-facing name of a property path, where the alias table has one.
pub fn og_name_of(path: &String) -> (r: Option<String>)
    ensures
        match r {
            Some(v) => alias_reverse(friendly_table(), path@) == Some(v@),
            None => alias_reverse(friendly_table(), path@) is None,
        },
{
    let table = friendly_names_mapping();
    reverse_alias(&table, path)
}

} // verus!
