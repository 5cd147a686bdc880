use woodpusher::uci::uci_command;
use woodpusher::worker::Command;

#[test]
fn uci_start_command() {
    // When
    let (command, reply) = uci_command("uci");

    // Then
    assert_eq!(reply, "id name woodpusher\nid author Sébastien Willmann\nuciok");
    assert_eq!(command, None);
}

#[test]
fn isready_command_parses() {
    let (command, reply) = uci_command("isready");

    assert_eq!(command, Some(Command::Ready));
    assert_eq!(reply, "readyok");
}

#[test]
fn position_startpos_command() {
    // When
    let (command, reply) = uci_command("position startpos");

    // Then
    assert_eq!(reply, "");
    assert_eq!(command, Some(Command::StartPos));
}

#[test]
fn go_command() {
    // When
    let (command, reply) = uci_command("go");

    // Then
    assert_eq!(reply, "");
    assert_eq!(command, Some(Command::Go));
}

#[test]
fn stop_command() {
    // When
    let (command, reply) = uci_command("stop");

    // Then
    assert_eq!(reply, "");
    assert_eq!(command, Some(Command::Stop));
}

#[test]
fn quit_command() {
    // When
    let (command, reply) = uci_command("quit");

    // Then
    assert_eq!(reply, "");
    assert_eq!(command, Some(Command::Quit));
}

#[test]
fn unknown_command() {
    let (command, reply) = uci_command("ucinewgame");

    assert_eq!(reply, "");
    assert_eq!(command, None);
}
